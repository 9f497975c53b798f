//! Safe identifier validation.
//!
//! Table and column names are interpolated into SQL (parameters cannot
//! stand for identifiers), so each one must match
//! `[A-Za-z_][A-Za-z0-9_]*`, at most 64 characters; a table may be
//! qualified by one schema component.

use vstd::prelude::*;
use vstd::string::StringExecFns;

use crate::connector::errors::{ConnectorError, ConnectorErrorView};
use crate::text::{chars_of, debug_quoted, quote_debug};

verus! {

/// A character that may start an identifier.
pub open spec fn ident_start(c: char) -> bool {
    ('a' <= c && c <= 'z') || ('A' <= c && c <= 'Z') || c == '_'
}

/// A character that may continue an identifier.
pub open spec fn ident_char(c: char) -> bool {
    ident_start(c) || ('0' <= c && c <= '9')
}

/// A valid single identifier component.
pub open spec fn valid_component(s: Seq<char>) -> bool {
    &&& 0 < s.len() <= 64
    &&& ident_start(s[0])
    &&& forall|i: int| 1 <= i < s.len() ==> ident_char(#[trigger] s[i])
}

/// A valid table identifier: `name` or `schema.name`.
pub open spec fn valid_table(s: Seq<char>) -> bool {
    valid_component(s) || exists|d: int|
        0 <= d < s.len() && s[d] == '.' && valid_component(s.take(d)) && valid_component(#[trigger] s.skip(d + 1))
}

/// The message of a refused column identifier.
pub open spec fn bad_ident_text(raw: Seq<char>) -> Seq<char> {
    "invalid SQL identifier "@ + debug_quoted(raw) + ": must match [A-Za-z_][A-Za-z0-9_]*"@
}

/// The message of a refused table identifier.
pub open spec fn bad_table_text(raw: Seq<char>) -> Seq<char> {
    "invalid SQL table identifier "@ + debug_quoted(raw) + ": must match `name` or `schema.name`"@
}

/// A validated SQL identifier, safe to interpolate into a query.
#[derive(Debug)]
pub struct SafeIdent(String);

fn is_start(c: char) -> (r: bool)
    ensures
        r == ident_start(c),
{
    ('a' <= c && c <= 'z') || ('A' <= c && c <= 'Z') || c == '_'
}

fn is_ident_char(c: char) -> (r: bool)
    ensures
        r == ident_char(c),
{
    is_start(c) || ('0' <= c && c <= '9')
}

/// Whether `cs[lo..hi]` is a valid component.
fn component_ok(cs: &Vec<char>, lo: usize, hi: usize) -> (r: bool)
    requires
        lo <= hi <= cs@.len(),
    ensures
        r == valid_component(cs@.subrange(lo as int, hi as int)),
{
    let ghost s = cs@.subrange(lo as int, hi as int);
    if hi == lo || hi - lo > 64 {
        return false;
    }
    if !is_start(cs[lo]) {
        return false;
    }
    let mut i: usize = lo + 1;
    while i < hi
        invariant
            lo < i <= hi,
            hi <= cs@.len(),
            s == cs@.subrange(lo as int, hi as int),
            forall|j: int| 1 <= j < i - lo ==> ident_char(#[trigger] s[j]),
        decreases hi - i,
    {
        if !is_ident_char(cs[i]) {
            assert(s[i - lo] == cs@[i as int]);
            return false;
        }
        assert(s[i - lo] == cs@[i as int]);
        i = i + 1;
    }
    true
}

impl SafeIdent {
    #[verifier::type_invariant]
    closed spec fn inv(self) -> bool {
        valid_table(self.0@)
    }

    /// The identifier text.
    pub closed spec fn text(&self) -> Seq<char> {
        self.0@
    }

    /// True when `s` is a valid single component.
    pub fn is_valid_component(s: &str) -> (r: bool)
        ensures
            r == valid_component(s@),
    {
        let cs = chars_of(s);
        assert(cs@.subrange(0, cs@.len() as int) =~= s@);
        component_ok(&cs, 0, cs.len())
    }

    /// Validate a single-component identifier (e.g. a column name).
    pub fn single(raw: &str) -> (r: Result<SafeIdent, ConnectorError>)
        ensures
            valid_component(raw@) ==> (r matches Ok(id) && id.text() == raw@),
            !valid_component(raw@) ==> (r matches Err(e) && e@ == ConnectorErrorView::InvalidIntent(bad_ident_text(raw@))),
    {
        if Self::is_valid_component(raw) {
            Ok(SafeIdent(String::from_str(raw)))
        } else {
            let mut m = String::from_str("invalid SQL identifier ");
            m.append(quote_debug(raw).as_str());
            m.append(": must match [A-Za-z_][A-Za-z0-9_]*");
            Err(ConnectorError::InvalidIntent(m))
        }
    }

    /// Validate a one- or two-component identifier (`name` or `schema.name`).
    pub fn table(raw: &str) -> (r: Result<SafeIdent, ConnectorError>)
        ensures
            valid_table(raw@) ==> (r matches Ok(id) && id.text() == raw@),
            !valid_table(raw@) ==> (r matches Err(e) && e@ == ConnectorErrorView::InvalidIntent(bad_table_text(raw@))),
    {
        let cs = chars_of(raw);
        let n = cs.len();
        let mut d: usize = 0;
        while d < n && cs[d] != '.'
            invariant
                n == cs@.len(),
                d <= n,
                forall|j: int| 0 <= j < d ==> cs@[j] != '.',
            decreases n - d,
        {
            d = d + 1;
        }
        let ok = if d == n {
            assert(cs@.subrange(0, n as int) =~= raw@);
            let v = component_ok(&cs, 0, n);
            proof {
                if !v {
                    assert forall|e: int| 0 <= e < raw@.len() && raw@[e] == '.' implies !(valid_component(raw@.take(e)) && valid_component(raw@.skip(e + 1))) by {
                        assert(cs@[e] != '.');
                    }
                }
            }
            v
        } else {
            let a = component_ok(&cs, 0, d);
            let b = component_ok(&cs, d + 1, n);
            proof {
                assert(cs@.subrange(0, d as int) =~= raw@.take(d as int));
                assert(cs@.subrange(d + 1, n as int) =~= raw@.skip(d + 1));
                // A valid component holds no dot, so only the first dot can
                // split a valid qualified name, and the whole is not one.
                assert(!valid_component(raw@)) by {
                    assert(!ident_char(raw@[d as int]));
                }
                if !(a && b) {
                    assert forall|e: int| 0 <= e < raw@.len() && raw@[e] == '.' implies !(valid_component(raw@.take(e)) && valid_component(#[trigger] raw@.skip(e + 1))) by {
                        if e > d {
                            assert(raw@.take(e)[d as int] == '.');
                            assert(!ident_char(raw@.take(e)[d as int]));
                            if d == 0 {
                                assert(!ident_start(raw@.take(e)[0]));
                            }
                        } else if e < d {
                            assert(cs@[e] != '.');
                        }
                    }
                }
            }
            a && b
        };
        if ok {
            Ok(SafeIdent(String::from_str(raw)))
        } else {
            let mut m = String::from_str("invalid SQL table identifier ");
            m.append(quote_debug(raw).as_str());
            m.append(": must match `name` or `schema.name`");
            Err(ConnectorError::InvalidIntent(m))
        }
    }

    /// The validated identifier as it appears in SQL.
    pub fn as_str(&self) -> (r: &str)
        ensures
            r@ == self.text(),
            valid_table(r@),
    {
        proof {
            use_type_invariant(self);
        }
        self.0.as_str()
    }
}

/// A valid component is made of identifier characters only; in
/// particular it holds no quote, backtick, space, dot or semicolon.
pub proof fn lemma_component_chars(s: Seq<char>)
    requires
        valid_component(s),
    ensures
        forall|i: int| 0 <= i < s.len() ==> ident_char(#[trigger] s[i]),
{
    assert forall|i: int| 0 <= i < s.len() implies ident_char(#[trigger] s[i]) by {
        if i > 0 {
            assert(ident_char(s[i]));
        }
    }
}

} // verus!
