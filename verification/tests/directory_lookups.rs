use mailcore::directory::dispatch::{Backend, Directory, DirectoryCache, DirectoryInner, Lookup};
use mailcore::directory::memory::{
    Credentials, EmailType, MemoryDirectory, Principal, QueryBy, QueryOutcome, QueryParams, RcptType,
};
use mailcore::expr::{fn_is_empty, fn_is_number, FloatBits, Variable};

fn principal(id: u32, name: &str, emails: &[&str]) -> Principal {
    Principal {
        id,
        name: name.to_string(),
        secrets: vec![format!("secret-of-{}", name)],
        emails: emails.iter().map(|e| e.to_string()).collect(),
    }
}

fn directory() -> MemoryDirectory {
    let mut directory = MemoryDirectory::new();
    directory.add_principal(principal(1, "john", &["john@example.org", "j@example.org"]));
    directory.add_principal(principal(2, "jane", &["jane@example.org"]));
    directory.add_principal(principal(3, "sales", &["sales@example.org"]));
    directory.add_principal(principal(4, "empty", &[]));
    directory.add_principal(principal(2, "shadow", &["shadow@example.org"]));
    directory.add_email("john@example.org".to_string(), EmailType::Primary(1));
    directory.add_email("j@example.org".to_string(), EmailType::Alias(1));
    directory.add_email("jane@example.org".to_string(), EmailType::Primary(2));
    directory.add_email("sales@example.org".to_string(), EmailType::List(1));
    directory.add_email("sales@example.org".to_string(), EmailType::List(2));
    directory.add_email("sales@example.org".to_string(), EmailType::List(4));
    directory.add_email("sales@example.org".to_string(), EmailType::List(9));
    directory.add_email("sales@example.org".to_string(), EmailType::Primary(3));
    directory.add_domain("example.org".to_string());
    directory.add_domain("example.net".to_string());
    directory.add_domain("example.org".to_string());
    directory
}

fn by(by: QueryBy) -> QueryParams {
    QueryParams { by, return_member_of: false }
}

#[test]
fn query_by_name_id_and_credentials() {
    let directory = directory();
    assert!(matches!(
        directory.query(&by(QueryBy::Name("jane".to_string()))),
        QueryOutcome::Found(p) if p.id == 2 && p.emails == vec!["jane@example.org".to_string()]
    ));
    assert!(matches!(directory.query(&by(QueryBy::Name("Jane".to_string()))), QueryOutcome::NotFound));
    // the first principal with the id
    assert!(matches!(
        directory.query(&by(QueryBy::Id(2))),
        QueryOutcome::Found(p) if p.name == "jane"
    ));
    assert!(matches!(directory.query(&by(QueryBy::Id(7))), QueryOutcome::NotFound));
    let plain = Credentials::Plain { username: "john".to_string(), secret: "pw".to_string() };
    let outcome = directory.query(&by(QueryBy::Credentials(plain)));
    assert!(matches!(
        &outcome,
        QueryOutcome::Verify { principal, secret } if principal.id == 1 && secret == "pw"
    ));
    assert_eq!(outcome.verified(true).map(|p| p.name), Some("john".to_string()));
    let x = Credentials::XOauth2 { username: "jane".to_string(), secret: "t".to_string() };
    assert!(directory.query(&by(QueryBy::Credentials(x))).verified(false).is_none());
    let bearer = Credentials::OAuthBearer { token: "sales".to_string() };
    assert!(matches!(
        directory.query(&by(QueryBy::Credentials(bearer))),
        QueryOutcome::Verify { principal, secret } if principal.id == 3 && secret == "sales"
    ));
    let unknown = Credentials::Plain { username: "nobody".to_string(), secret: "pw".to_string() };
    assert!(matches!(directory.query(&by(QueryBy::Credentials(unknown))), QueryOutcome::NotFound));
}

#[test]
fn addresses_and_domains() {
    let directory = directory();
    assert_eq!(directory.email_to_id("j@example.org"), Some(1));
    assert_eq!(directory.email_to_id("sales@example.org"), Some(1));
    assert_eq!(directory.email_to_id("J@example.org"), None);
    assert_eq!(directory.email_to_id(""), None);
    assert_eq!(directory.rcpt("jane@example.org"), RcptType::Mailbox);
    assert_eq!(directory.rcpt("jane@example.net"), RcptType::Invalid);
    assert!(directory.is_local_domain("example.net"));
    assert!(!directory.is_local_domain("example.com"));
    assert!(!directory.is_local_domain("EXAMPLE.org"));
}

#[test]
fn vrfy_and_expn() {
    let directory = directory();
    assert_eq!(directory.vrfy("j"), vec!["john@example.org".to_string(), "jane@example.org".to_string()]);
    assert_eq!(directory.vrfy("@example.org"), vec![
        "john@example.org".to_string(),
        "jane@example.org".to_string(),
        "sales@example.org".to_string()
    ]);
    // an alias is not verified
    assert!(directory.vrfy("j@example.org").is_empty());
    assert_eq!(directory.vrfy(""), directory.vrfy("@"));
    assert!(directory.vrfy("john@example.org.").is_empty());
    // lists expand to the first address of each member that has one
    assert_eq!(directory.expn("sales@example.org"), vec![
        "john@example.org".to_string(),
        "jane@example.org".to_string()
    ]);
    assert!(directory.expn("john@example.org").is_empty());
    assert!(directory.expn("nobody@example.org").is_empty());
}

#[test]
fn many_addresses_are_found_again() {
    let mut directory = MemoryDirectory::new();
    for i in 0..500u32 {
        directory.add_email(format!("user{}@example.org", i), EmailType::Primary(i));
        directory.add_domain(format!("d{}.example", i));
    }
    for i in 0..500u32 {
        assert_eq!(directory.email_to_id(&format!("user{}@example.org", i)), Some(i));
        assert!(directory.is_local_domain(&format!("d{}.example", i)));
    }
    assert_eq!(directory.email_to_id("user500@example.org"), None);
    assert_eq!(directory.vrfy("user49").len(), 11);
}

#[test]
fn dispatch() {
    let mut memory = Directory { store: DirectoryInner::Memory(directory()), cache: Some(DirectoryCache::new()) };
    assert!(!memory.has_bearer_token_support());
    assert!(!memory.store.is_enterprise_directory());
    assert!(matches!(memory.is_local_domain("example.org"), Lookup::Known(true)));
    assert!(matches!(memory.is_local_domain("example.com"), Lookup::Known(false)));
    assert_eq!(memory.cache.as_ref().unwrap().get_domain("example.org"), Some(true));
    assert_eq!(memory.cache.as_ref().unwrap().get_domain("example.com"), Some(false));
    assert_eq!(memory.cache.as_ref().unwrap().get_domain("example.net"), None);
    // the cache answers first
    memory.remember_domain("example.com", true);
    assert!(matches!(memory.is_local_domain("example.com"), Lookup::Known(true)));
    assert!(matches!(memory.rcpt("jane@example.org"), Lookup::Known(RcptType::Mailbox)));
    assert!(matches!(memory.rcpt("x@example.org"), Lookup::Known(RcptType::Invalid)));
    memory.remember_rcpt("x@example.org", &RcptType::List(vec!["a@b".to_string()]));
    assert!(matches!(
        memory.rcpt("x@example.org"),
        Lookup::Known(RcptType::List(members)) if members == vec!["a@b".to_string()]
    ));
    assert!(matches!(memory.email_to_id("j@example.org"), Lookup::Known(Some(1))));
    assert!(matches!(memory.vrfy("jane"), Lookup::Known(found) if found.len() == 1));
    assert!(matches!(memory.expn("sales@example.org"), Lookup::Known(found) if found.len() == 2));
    assert!(matches!(
        memory.query(&by(QueryBy::Id(3))),
        Lookup::Known(QueryOutcome::Found(p)) if p.name == "sales"
    ));

    let mut remote = Directory { store: DirectoryInner::Ldap, cache: Some(DirectoryCache::new()) };
    assert!(matches!(remote.is_local_domain("example.org"), Lookup::Ask(Backend::Ldap)));
    remote.remember_domain("example.org", false);
    assert!(matches!(remote.is_local_domain("example.org"), Lookup::Known(false)));
    assert!(matches!(remote.rcpt("a@b"), Lookup::Ask(Backend::Ldap)));
    assert!(matches!(remote.query(&by(QueryBy::Id(3))), Lookup::Ask(Backend::Ldap)));
    assert!(matches!(remote.vrfy("a"), Lookup::Ask(Backend::Ldap)));
    assert!(matches!(remote.expn("a"), Lookup::Ask(Backend::Ldap)));
    assert!(matches!(remote.email_to_id("a"), Lookup::Ask(Backend::Ldap)));
    let mut uncached = Directory { store: DirectoryInner::Sql, cache: None };
    uncached.remember_domain("example.org", true);
    assert!(matches!(uncached.is_local_domain("example.org"), Lookup::Ask(Backend::Sql)));

    for (store, expected) in [
        (DirectoryInner::Internal, false),
        (DirectoryInner::Ldap, false),
        (DirectoryInner::Sql, false),
        (DirectoryInner::Imap, false),
        (DirectoryInner::Smtp, false),
        (DirectoryInner::OpenId, true),
    ] {
        assert!(!store.is_enterprise_directory());
        assert_eq!(Directory { store, cache: None }.has_bearer_token_support(), expected);
    }
}

fn integer(variable: Variable) -> i64 {
    match variable {
        Variable::Integer(value) => value,
        other => panic!("expected an integer, got {:?}", other),
    }
}

#[test]
fn expression_functions() {
    assert_eq!(integer(fn_is_empty(vec![Variable::String(String::new())])), 1);
    assert_eq!(integer(fn_is_empty(vec![Variable::String(" ".to_string())])), 0);
    assert_eq!(integer(fn_is_empty(vec![Variable::Array(vec![])])), 1);
    assert_eq!(integer(fn_is_empty(vec![Variable::Array(vec![Variable::Array(vec![])])])), 0);
    assert_eq!(integer(fn_is_empty(vec![Variable::Integer(0)])), 0);
    assert_eq!(integer(fn_is_empty(vec![Variable::Float(FloatBits(0))])), 0);
    assert_eq!(
        integer(fn_is_empty(vec![Variable::String(String::new()), Variable::Integer(3)])),
        1
    );
    assert_eq!(integer(fn_is_number(vec![Variable::Integer(-4)])), 1);
    assert_eq!(integer(fn_is_number(vec![Variable::Float(FloatBits(1.5f64.to_bits()))])), 1);
    assert_eq!(integer(fn_is_number(vec![Variable::String("12".to_string())])), 0);
    assert_eq!(integer(fn_is_number(vec![Variable::Array(vec![Variable::Integer(1)])])), 0);
}
