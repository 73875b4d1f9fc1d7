use encurtador::auth::{api_key_matches, digest_matches, guard, guard_with_settings};
use encurtador::encoding::{decimal_bytes, to_lower_hex};
use encurtador::repository::{count_statistics, LinkRepository};
use encurtador::routes::{
    create_link, create_link_with_number, finish_link_write, generate_id, get_link_statistics,
    health_check, id_from_number, redirect, target_from_parsed, update_link, validate_target_url,
    HealthResponse, Link, LinkStatisticEvent, LinkTarget,
};
use encurtador::utils::{
    internal_error, or_internal_error, settle, StoreError, DEFAULT_CACHE_CONTROL_HEADER_VALUE,
    DEFAULT_TIMEOUT_IN_MILLI,
};

const ABC_DIGEST: &str = "3a985da74fe225b2045c172d6bd390bd855f086e3e9d525b46bfe24511431532";

fn target(s: &str) -> LinkTarget {
    LinkTarget { target_url: s.to_string() }
}

fn event(id: &str, referer: &str, agent: &str) -> LinkStatisticEvent {
    LinkStatisticEvent {
        link_id: id.to_string(),
        referer: referer.to_string(),
        user_agent: agent.to_string(),
    }
}

#[test]
fn healthy_body() {
    let h = HealthResponse::healthy();
    assert_eq!(h.status, "ok");
    assert_eq!(h.info, "Todos os serviços estão saudáveis");
    let (status, body) = health_check();
    assert_eq!(status, 200);
    assert_eq!(body.status, "ok");
}

#[test]
fn constants() {
    assert_eq!(DEFAULT_TIMEOUT_IN_MILLI, 350);
    assert_eq!(
        DEFAULT_CACHE_CONTROL_HEADER_VALUE,
        "public, max-age=300, s-maxage=300, stale-while-revalidate=300, stale-if-error=300"
    );
}

#[test]
fn decimal_digits() {
    assert_eq!(decimal_bytes(0), b"0".to_vec());
    assert_eq!(decimal_bytes(7), b"7".to_vec());
    assert_eq!(decimal_bytes(4294967295), b"4294967295".to_vec());
}

#[test]
fn identifiers_from_numbers() {
    assert_eq!(id_from_number(0), "MA");
    assert_eq!(id_from_number(123), "MTIz");
    assert_eq!(id_from_number(4294967294), "NDI5NDk2NzI5NA");
}

#[test]
fn generated_identifier_is_url_safe() {
    let id = generate_id();
    assert!(!id.is_empty());
    assert!(id.chars().all(|c| c.is_ascii_alphanumeric() || c == '-' || c == '_'));
}

#[test]
fn lower_hex_digits() {
    assert_eq!(to_lower_hex(&[0x00, 0xab, 0xff, 0x10]), b"00abff10".to_vec());
    assert_eq!(to_lower_hex(&[]), Vec::<u8>::new());
}

#[test]
fn digest_comparison() {
    assert!(digest_matches(&[0xab, 0x01], "ab01"));
    assert!(!digest_matches(&[0xab, 0x01], "AB01"));
    assert!(!digest_matches(&[0xab, 0x01], "ab0"));
}

#[test]
fn api_key_hashes_with_sha3_256() {
    assert!(api_key_matches("abc", ABC_DIGEST));
    assert!(!api_key_matches("abd", ABC_DIGEST));
    assert!(!api_key_matches("abc", "abc"));
}

#[test]
fn guard_without_header_is_unauthorized() {
    let e = guard(None).err().unwrap();
    assert_eq!(e.status, 401);
    assert_eq!(e.message, "Unauthorized");
    assert_eq!(guard(Some("k".to_string())).ok().unwrap(), "k");
}

#[test]
fn guard_with_wrong_key_is_unauthorized() {
    let e = guard_with_settings("wrong", Ok(ABC_DIGEST.to_string())).err().unwrap();
    assert_eq!(e.status, 401);
    assert_eq!(e.message, "Unauthorized");
}

#[test]
fn guard_with_right_key_proceeds() {
    assert!(guard_with_settings("abc", Ok(ABC_DIGEST.to_string())).is_ok());
}

#[test]
fn guard_with_failed_settings_is_internal_error() {
    let e = guard_with_settings("abc", Err(StoreError::Timeout("deadline has elapsed".to_string())))
        .err()
        .unwrap();
    assert_eq!(e.status, 500);
    assert_eq!(e.message, "deadline has elapsed");
    let e = guard_with_settings("abc", Err(StoreError::DataStore("down".to_string()))).err().unwrap();
    assert_eq!(e.status, 500);
}

#[test]
fn settle_outcomes() {
    assert_eq!(settle::<u8>(Ok(Ok(3))).ok().unwrap(), 3);
    match settle::<u8>(Err("deadline has elapsed".to_string())) {
        Err(StoreError::Timeout(m)) => assert_eq!(m, "deadline has elapsed"),
        _ => panic!("expected a timeout"),
    }
    match settle::<u8>(Ok(Err("broken pipe".to_string()))) {
        Err(StoreError::DataStore(m)) => assert_eq!(m, "broken pipe"),
        _ => panic!("expected a store failure"),
    }
}

#[test]
fn timeout_is_internal_error() {
    let e = internal_error(StoreError::Timeout("deadline has elapsed".to_string()));
    assert_eq!(e.status, 500);
    assert_eq!(e.message, "deadline has elapsed");
    let r = or_internal_error::<u8>(settle(Err("deadline has elapsed".to_string())));
    assert_eq!(r.err().unwrap().status, 500);
    let r = finish_link_write(Err(StoreError::Timeout("deadline has elapsed".to_string())));
    assert_eq!(r.err().unwrap().status, 500);
    let r = get_link_statistics(Err(StoreError::DataStore("x".to_string())));
    assert_eq!(r.err().unwrap().message, "x");
}

#[test]
fn url_validation() {
    assert_eq!(validate_target_url("https://example.com/a").ok().unwrap(), "https://example.com/a");
    assert_eq!(validate_target_url("HTTPS://Example.COM").ok().unwrap(), "https://example.com/");
    let e = validate_target_url("not a url").err().unwrap();
    assert_eq!(e.status, 409);
    assert_eq!(e.message, "URL mal formatada");
    assert_eq!(target_from_parsed(Some("x".to_string())).ok().unwrap(), "x");
    assert_eq!(target_from_parsed(None).err().unwrap().status, 409);
}

#[test]
fn create_with_malformed_url_inserts_nothing() {
    let repo = LinkRepository::new();
    let e = create_link(target("::no-scheme")).err().unwrap();
    assert_eq!(e.status, 409);
    assert_eq!(repo.find_link("MA").is_none(), true);
}

#[test]
fn create_rows() {
    let link = create_link_with_number(target("https://example.com/a"), 123).ok().unwrap();
    assert_eq!(link.id, "MTIz");
    assert_eq!(link.target_url, "https://example.com/a");
    let link = create_link(target("https://example.com/b")).ok().unwrap();
    assert_eq!(link.target_url, "https://example.com/b");
    let link = update_link("abc".to_string(), target("http://x.org")).ok().unwrap();
    assert_eq!(link.id, "abc");
    assert_eq!(link.target_url, "http://x.org/");
    assert_eq!(update_link("abc".to_string(), target("nope")).err().unwrap().status, 409);
}

#[test]
fn redirect_outcomes() {
    let e = redirect("x".to_string(), Ok(None), None, None).err().unwrap();
    assert_eq!(e.status, 404);
    assert_eq!(e.message, "Não foi encontrado resultados");
    let e = redirect("x".to_string(), Err(StoreError::DataStore("down".to_string())), None, None)
        .err()
        .unwrap();
    assert_eq!(e.status, 500);
    assert_eq!(e.message, "down");
    let link = Link { id: "x".to_string(), target_url: "https://a.b/".to_string() };
    let r = redirect("x".to_string(), Ok(Some(link)), Some("r".to_string()), None).ok().unwrap();
    assert_eq!(r.response.status, 307);
    assert_eq!(r.response.location, "https://a.b/");
    assert_eq!(r.response.cache_control, DEFAULT_CACHE_CONTROL_HEADER_VALUE);
    assert_eq!(r.statistic.link_id, "x");
    assert_eq!(r.statistic.referer, "r");
    assert_eq!(r.statistic.user_agent, "Não informado");
}

#[test]
fn unknown_id_redirects_to_not_found() {
    let mut repo = LinkRepository::new();
    repo.insert_link("a".to_string(), "https://a.b/".to_string()).ok().unwrap();
    let e = redirect("zz".to_string(), Ok(repo.find_link("zz")), None, None).err().unwrap();
    assert_eq!(e.status, 404);
}

#[test]
fn repository_insert_and_update() {
    let mut repo = LinkRepository::new();
    let row = repo.insert_link("a".to_string(), "https://a.b/".to_string()).ok().unwrap();
    assert_eq!(row.id, "a");
    assert!(repo.insert_link("a".to_string(), "https://c.d/".to_string()).is_err());
    assert_eq!(repo.find_link("a").unwrap().target_url, "https://a.b/");
    let row = repo.update_link("a".to_string(), "https://c.d/".to_string()).ok().unwrap();
    assert_eq!(row.target_url, "https://c.d/");
    assert_eq!(repo.find_link("a").unwrap().target_url, "https://c.d/");
    assert!(repo.update_link("b".to_string(), "https://c.d/".to_string()).is_err());
    assert!(repo.find_link("b").is_none());
}

#[test]
fn statistics_are_grouped_and_counted() {
    let events = vec![
        event("a", "r1", "u1"),
        event("a", "r1", "u1"),
        event("b", "r1", "u1"),
        event("a", "r2", "u1"),
        event("a", "r1", "u2"),
        event("a", "r1", "u1"),
    ];
    let rows = count_statistics(&events, "a");
    assert_eq!(rows.len(), 3);
    let find = |r: &str, u: &str| {
        rows.iter()
            .find(|s| s.referer.as_deref() == Some(r) && s.user_agent.as_deref() == Some(u))
            .and_then(|s| s.amount)
    };
    assert_eq!(find("r1", "u1"), Some(3));
    assert_eq!(find("r2", "u1"), Some(1));
    assert_eq!(find("r1", "u2"), Some(1));
    assert!(count_statistics(&events, "c").is_empty());
    assert!(count_statistics(&[], "a").is_empty());
}

#[test]
fn failed_statistic_write_keeps_redirect() {
    let mut repo = LinkRepository::new();
    repo.insert_link("a".to_string(), "https://a.b/".to_string()).ok().unwrap();
    let r = redirect("a".to_string(), Ok(repo.find_link("a")), None, None).ok().unwrap();
    // the store is unavailable: the event is never written
    assert_eq!(r.response.status, 307);
    assert_eq!(r.response.location, "https://a.b/");
    assert!(repo.aggregate_statistics("a").is_empty());
    assert_eq!(repo.event_len(), 0);
}

#[test]
fn create_redirect_statistics_end_to_end() {
    let mut repo = LinkRepository::new();
    let row = create_link(target("https://example.com/a")).ok().unwrap();
    let stored = finish_link_write(repo.insert_link(row.id.clone(), row.target_url.clone())).ok().unwrap();
    assert_eq!(stored.target_url, "https://example.com/a");
    assert_eq!(stored.id, row.id);
    let r = redirect(stored.id.clone(), Ok(repo.find_link(&stored.id)), None, None).ok().unwrap();
    assert_eq!(r.response.status, 307);
    assert_eq!(r.response.location, "https://example.com/a");
    repo.record_statistic(r.statistic);
    let rows = get_link_statistics(Ok(repo.aggregate_statistics(&stored.id))).ok().unwrap();
    assert_eq!(rows.len(), 1);
    assert_eq!(rows[0].amount, Some(1));
    assert_eq!(rows[0].referer.as_deref(), Some("Não informado"));
    assert_eq!(rows[0].user_agent.as_deref(), Some("Não informado"));
}
