use eventhorizon::connector::errors::ConnectorError;
use eventhorizon::mysql::ident::SafeIdent;

#[test]
fn single_accepts_simple_identifier() {
    assert_eq!(SafeIdent::single("customers").unwrap().as_str(), "customers");
    assert_eq!(SafeIdent::single("_under").unwrap().as_str(), "_under");
    assert_eq!(SafeIdent::single("a1_b2").unwrap().as_str(), "a1_b2");
}

#[test]
fn single_rejects_dots() {
    assert!(SafeIdent::single("eh_demo.customers").is_err());
}

#[test]
fn single_rejects_special_chars() {
    for bad in ["drop table", "id;", "id ", "id-", "1col", "", "id'or'1=1", "id\"", "id`"] {
        assert!(SafeIdent::single(bad).is_err(), "should reject {bad:?}");
    }
}

#[test]
fn table_accepts_simple_and_qualified() {
    assert_eq!(SafeIdent::table("customers").unwrap().as_str(), "customers");
    assert_eq!(SafeIdent::table("eh_demo.customers").unwrap().as_str(), "eh_demo.customers");
}

#[test]
fn table_rejects_three_components() {
    assert!(SafeIdent::table("cat.eh_demo.customers").is_err());
}

#[test]
fn table_rejects_empty_components() {
    assert!(SafeIdent::table(".customers").is_err());
    assert!(SafeIdent::table("eh_demo.").is_err());
    assert!(SafeIdent::table(".").is_err());
}

#[test]
fn rejects_excessively_long_components() {
    let too_long = "a".repeat(65);
    assert!(SafeIdent::single(&too_long).is_err());
    assert!(SafeIdent::table(&too_long).is_err());
    let qualified = format!("eh_demo.{too_long}");
    assert!(SafeIdent::table(&qualified).is_err());
    assert!(SafeIdent::single(&"a".repeat(64)).is_ok());
}

#[test]
fn rejections_quote_the_identifier() {
    match SafeIdent::single("id;") {
        Err(ConnectorError::InvalidIntent(m)) => {
            assert_eq!(m, "invalid SQL identifier \"id;\": must match [A-Za-z_][A-Za-z0-9_]*")
        }
        _ => panic!("expected InvalidIntent"),
    }
    match SafeIdent::table("a.b.c") {
        Err(ConnectorError::InvalidIntent(m)) => {
            assert_eq!(m, "invalid SQL table identifier \"a.b.c\": must match `name` or `schema.name`")
        }
        _ => panic!("expected InvalidIntent"),
    }
    assert!(SafeIdent::is_valid_component("ok_1"));
    assert!(!SafeIdent::is_valid_component("9lives"));
}
