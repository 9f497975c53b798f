//! Secret references (`${ENV:NAME}`) and resolved secrets.

use vstd::prelude::*;
use vstd::string::StringExecFns;

use crate::config::errors::{ConfigError, ConfigErrorView};
use crate::text::{chars_of, string_from_chars};

verus! {

/// The prefix of a secret reference, `${ENV:`.
pub open spec fn env_prefix() -> Seq<char> {
    seq!['$', '{', 'E', 'N', 'V', ':']
}

/// The first character of a bare variable name: `[A-Z_]`.
pub open spec fn env_ident_head(c: char) -> bool {
    ('A' <= c && c <= 'Z') || c == '_'
}

/// A later character of a bare variable name: `[A-Z0-9_]`.
pub open spec fn env_ident_tail(c: char) -> bool {
    ('A' <= c && c <= 'Z') || ('0' <= c && c <= '9') || c == '_'
}

/// A bare variable name, `^[A-Z_][A-Z0-9_]*$`.
pub open spec fn is_env_ident(s: Seq<char>) -> bool {
    &&& s.len() > 0
    &&& env_ident_head(s[0])
    &&& forall|i: int| 1 <= i < s.len() ==> env_ident_tail(#[trigger] s[i])
}

/// The text has the `${ENV:NAME}` form with a non-empty name.
pub open spec fn is_env_ref_form(raw: Seq<char>) -> bool {
    raw.len() > 7 && raw.take(6) == env_prefix() && raw.last() == '}'
}

/// The variable name a reference names, if `raw` is one: the `NAME` of a
/// `${ENV:NAME}` reference with a non-empty name, or a bare variable name
/// itself.
pub open spec fn spec_parse_ref(raw: Seq<char>) -> Option<Seq<char>> {
    if is_env_ref_form(raw) {
        Some(raw.subrange(6, raw.len() - 1))
    } else if is_env_ident(raw) {
        Some(raw)
    } else {
        None
    }
}

fn env_ident_chars(cs: &Vec<char>) -> (r: bool)
    ensures
        r == is_env_ident(cs@),
{
    let n = cs.len();
    if n == 0 {
        return false;
    }
    let c0 = cs[0];
    if !(('A' <= c0 && c0 <= 'Z') || c0 == '_') {
        return false;
    }
    let mut i: usize = 1;
    while i < n
        invariant
            n == cs@.len(),
            1 <= i <= n,
            forall|j: int| 1 <= j < i ==> env_ident_tail(#[trigger] cs@[j]),
        decreases n - i,
    {
        let c = cs[i];
        if !(('A' <= c && c <= 'Z') || ('0' <= c && c <= '9') || c == '_') {
            assert(!env_ident_tail(cs@[i as int]));
            return false;
        }
        i = i + 1;
    }
    true
}

/// The wire form of a reference to `name`: `${ENV:NAME}`.
pub open spec fn spec_ref_text(name: Seq<char>) -> Seq<char> {
    env_prefix() + name + seq!['}']
}

/// A reference to a secret; today only environment variables.
#[derive(Debug)]
pub enum SecretRef {
    /// `${ENV:NAME}` — read from the process environment.
    Env(String),
}

impl Clone for SecretRef {
    fn clone(&self) -> (r: Self)
        ensures
            r == *self,
    {
        match self {
            SecretRef::Env(n) => SecretRef::Env(n.clone()),
        }
    }
}

impl SecretRef {
    /// The environment-variable name this reference reads.
    pub open spec fn spec_env_name(&self) -> Seq<char> {
        match self {
            SecretRef::Env(n) => n@,
        }
    }

    /// Parse a reference of the form `${ENV:NAME}`. A bare variable name
    /// (`^[A-Z_][A-Z0-9_]*$`) is accepted as a reference to itself; any
    /// other text, and an empty name, is refused, so no raw secret can be
    /// written in the configuration.
    pub fn parse(raw: &str) -> (r: Result<SecretRef, ConfigError>)
        ensures
            match spec_parse_ref(raw@) {
                Some(name) => r matches Ok(s) && s.spec_env_name() == name,
                None => r matches Err(e) && e@ == ConfigErrorView::InvalidSecretRef(raw@),
            },
    {
        let cs = chars_of(raw);
        let n = cs.len();
        if n > 7 && cs[0] == '$' && cs[1] == '{' && cs[2] == 'E' && cs[3] == 'N' && cs[4] == 'V'
            && cs[5] == ':' && cs[n - 1] == '}' {
            assert(raw@.take(6) =~= env_prefix());
            let name = string_from_chars(&cs, 6, n - 1);
            Ok(SecretRef::Env(name))
        } else if env_ident_chars(&cs) {
            proof {
                if raw@.len() > 7 && raw@.take(6) == env_prefix() {
                    assert(raw@[0] == raw@.take(6)[0]);
                }
            }
            Ok(SecretRef::Env(String::from_str(raw)))
        } else {
            proof {
                if raw@.len() > 7 && raw@.take(6) == env_prefix() {
                    assert(raw@[0] == raw@.take(6)[0]);
                    assert(raw@[1] == raw@.take(6)[1]);
                    assert(raw@[2] == raw@.take(6)[2]);
                    assert(raw@[3] == raw@.take(6)[3]);
                    assert(raw@[4] == raw@.take(6)[4]);
                    assert(raw@[5] == raw@.take(6)[5]);
                }
            }
            Err(ConfigError::InvalidSecretRef(String::from_str(raw)))
        }
    }

    /// Resolve this reference against the value the environment holds for
    /// its name (`None` when unset).
    pub fn resolve(&self, env_value: Option<String>) -> (r: Result<Secret, ConfigError>)
        ensures
            match env_value {
                None => r matches Err(e) && e@ == ConfigErrorView::MissingEnvVar(self.spec_env_name()),
                Some(v) => if v@.len() == 0 {
                    r matches Err(e) && e@ == ConfigErrorView::EmptyEnvVar(self.spec_env_name())
                } else {
                    r matches Ok(s) && s.spec_value() == v@
                },
            },
    {
        match self {
            SecretRef::Env(name) => match env_value {
                None => Err(ConfigError::MissingEnvVar(name.clone())),
                Some(v) => {
                    if v.as_str().is_empty() {
                        Err(ConfigError::EmptyEnvVar(name.clone()))
                    } else {
                        Ok(Secret(v))
                    }
                },
            },
        }
    }

    /// The environment-variable name this reference reads.
    pub fn env_name(&self) -> (r: &str)
        ensures
            r@ == self.spec_env_name(),
    {
        match self {
            SecretRef::Env(name) => name.as_str(),
        }
    }

    /// The wire form `${ENV:NAME}` this reference serialises to.
    pub fn to_ref_string(&self) -> (r: String)
        ensures
            r@ == spec_ref_text(self.spec_env_name()),
    {
        match self {
            SecretRef::Env(name) => {
                let mut s = String::from_str("${ENV:");
                proof {
                    reveal_strlit("${ENV:");
                    assert(s@ =~= env_prefix());
                }
                s.append(name.as_str());
                s.append("}");
                proof {
                    reveal_strlit("}");
                }
                assert(s@ =~= spec_ref_text(name@));
                s
            },
        }
    }

    /// The debug rendering, which shows the variable name only:
    /// `SecretRef::Env(NAME)`.
    pub fn debug_repr(&self) -> (r: String)
        ensures
            r@ == "SecretRef::Env("@ + self.spec_env_name() + ")"@,
    {
        match self {
            SecretRef::Env(name) => {
                let mut s = String::from_str("SecretRef::Env(");
                s.append(name.as_str());
                s.append(")");
                s
            },
        }
    }
}

/// Parsing the wire form of a reference gives that reference back.
pub proof fn lemma_ref_text_parses(name: Seq<char>)
    requires
        name.len() > 0,
    ensures
        spec_parse_ref(spec_ref_text(name)) == Some(name),
{
    let t = spec_ref_text(name);
    assert(t.take(6) =~= env_prefix());
    assert(t.subrange(6, t.len() - 1) =~= name);
}

/// A reference that parses renders back to the text it was parsed from
/// when that text has the `${ENV:NAME}` form; a bare variable name names
/// itself, and renders as `${ENV:NAME}`.
pub proof fn lemma_parsed_ref_renders_back(raw: Seq<char>)
    requires
        spec_parse_ref(raw) is Some,
    ensures
        is_env_ident(raw) ==> spec_parse_ref(raw) == Some(raw),
        !is_env_ident(raw) ==> spec_ref_text(spec_parse_ref(raw)->0) == raw,
{
    if is_env_ref_form(raw) {
        assert(raw[0] == raw.take(6)[0]);
        let name = spec_parse_ref(raw)->0;
        assert(raw =~= raw.take(6) + name + seq![raw.last()]);
        assert(spec_ref_text(name) =~= raw);
    }
}

/// A resolved secret value. Its debug rendering never shows the value.
pub struct Secret(String);

impl Secret {
    /// The secret value.
    pub closed spec fn spec_value(&self) -> Seq<char> {
        self.0@
    }

    /// Construct directly from a string.
    pub fn new(value: String) -> (r: Self)
        ensures
            r.spec_value() == value@,
    {
        Secret(value)
    }

    /// The underlying value.
    pub fn expose(&self) -> (r: &str)
        ensures
            r@ == self.spec_value(),
    {
        self.0.as_str()
    }

    /// The redacted debug rendering, `Secret(***)`.
    pub fn debug_repr(&self) -> (r: String)
        ensures
            r@ == "Secret(***)"@,
    {
        String::from_str("Secret(***)")
    }
}

} // verus!
