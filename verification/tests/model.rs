use atenda::model::fssa::{ModData, ModSide, ModpackData};
use atenda::model::ip_info::{DataFromIp, IpInfo, PartialIpInfo};
use atenda::model::user::{PartialUser, User};

fn data(ip: &str, country: &str) -> DataFromIp {
    DataFromIp {
        ip: ip.to_string(),
        city: "Vigo".to_string(),
        region: "Galicia".to_string(),
        country: country.to_string(),
        loc: "42.2,-8.7".to_string(),
        org: Some("AS1 Example".to_string()),
        postal: "36201".to_string(),
        timezone: "Europe/Madrid".to_string(),
    }
}

#[test]
fn mod_side_constructors() {
    assert_eq!(ModSide::server().bits(), 1);
    assert_eq!(ModSide::client().bits(), 2);
    assert_eq!(ModSide::both().bits(), 3);
}

#[test]
fn mod_side_parse_str() {
    assert_eq!(ModSide::parse_str("SERVER"), Some(1));
    assert_eq!(ModSide::parse_str("CLIENT"), Some(2));
    assert_eq!(ModSide::parse_str("server"), None);
    assert_eq!(ModSide::parse_str(""), None);
}

#[test]
fn mod_side_parse_arr() {
    assert_eq!(ModSide::parse_arr(&["SERVER"]), Some(1));
    assert_eq!(ModSide::parse_arr(&["CLIENT", "SERVER"]), Some(3));
    assert_eq!(ModSide::parse_arr(&["SERVER", "SERVER"]), Some(1));
    assert_eq!(ModSide::parse_arr(&[]), None);
    assert_eq!(ModSide::parse_arr(&["SERVER", "BOTH"]), None);
}

#[test]
fn mod_side_from_names() {
    assert_eq!(ModSide::from_names(&["CLIENT"]), Some(ModSide::client()));
    assert_eq!(ModSide::from_names(&["CLIENT", "SERVER"]), Some(ModSide::both()));
    assert_eq!(ModSide::from_names(&[]), None);
    assert_eq!(ModSide::from_names(&["X"]), None);
}

#[test]
fn mod_side_names() {
    assert_eq!(ModSide::server().names(), vec!["SERVER"]);
    assert_eq!(ModSide::client().names(), vec!["CLIENT"]);
    assert_eq!(ModSide::both().names(), vec!["SERVER", "CLIENT"]);
}

#[test]
fn mod_side_names_round_trip() {
    for side in [ModSide::server(), ModSide::client(), ModSide::both()] {
        assert_eq!(ModSide::from_names(&side.names()), Some(side));
    }
}

#[test]
fn mod_data_and_modpack_new() {
    let m = ModData::new(ModSide::both(), "a.jar".to_string(), "https://x/a.jar".to_string());
    assert_eq!(m.side, ModSide::both());
    assert_eq!(m.name, "a.jar");
    assert_eq!(m.download, "https://x/a.jar");
    let p = ModpackData::new("1.0.0".to_string(), vec![m], "c".to_string(), vec!["d".to_string()]);
    assert_eq!(p.version, "1.0.0");
    assert_eq!(p.mods.len(), 1);
    assert_eq!(p.config, "c");
    assert_eq!(p.datapacks, vec!["d".to_string()]);
}

#[test]
fn ip_info_from_lookup_counts_one_visit() {
    let i: IpInfo = data("1.2.3.4", "ES").into();
    assert_eq!(i.visites, 1);
    assert_eq!(i.ip, "1.2.3.4");
    assert_eq!(i.country, "ES");
    assert_eq!(i.org.as_deref(), Some("AS1 Example"));
    assert_eq!(i.timezone, "Europe/Madrid");
}

#[test]
fn ip_info_merge_sets_only_given_fields() {
    let mut i: IpInfo = data("1.2.3.4", "ES").into();
    let mut p = PartialIpInfo::default();
    p.city = Some("Ourense".to_string());
    p.org = Some(None);
    p.visites = Some(7);
    i.merge(p);
    assert_eq!(i.city, "Ourense");
    assert_eq!(i.org, None);
    assert_eq!(i.visites, 7);
    assert_eq!(i.country, "ES");
    assert_eq!(i.ip, "1.2.3.4");
}

#[test]
fn ip_info_merge_full_overwrites() {
    let mut a: IpInfo = data("1.2.3.4", "ES").into();
    let mut b: IpInfo = data("5.6.7.8", "PT").into();
    b.visites = 9;
    b.org = None;
    a.merge(PartialIpInfo::from(b.clone()));
    assert_eq!(a.ip, "5.6.7.8");
    assert_eq!(a.country, "PT");
    assert_eq!(a.visites, 9);
    assert_eq!(a.org, None);
}

#[test]
fn ip_info_merge_empty_keeps() {
    let mut a: IpInfo = data("1.2.3.4", "ES").into();
    a.merge(PartialIpInfo::default());
    assert_eq!(a.ip, "1.2.3.4");
    assert_eq!(a.visites, 1);
    assert_eq!(a.city, "Vigo");
}

#[test]
fn ip_info_default_is_empty() {
    let a = IpInfo::default();
    assert_eq!(a.visites, 0);
    assert_eq!(a.ip, "");
    assert_eq!(a.org, None);
}

#[test]
fn ip_info_from_row_reads_visits_as_unsigned() {
    let r = IpInfo::from_row(
        "1.1.1.1".to_string(),
        "c".to_string(),
        "r".to_string(),
        "US".to_string(),
        "l".to_string(),
        None,
        "p".to_string(),
        "t".to_string(),
        12,
    );
    assert_eq!(r.visites, 12);
    assert_eq!(r.ip, "1.1.1.1");
    assert_eq!(r.country, "US");
    let neg = IpInfo::from_row(
        String::new(),
        String::new(),
        String::new(),
        String::new(),
        String::new(),
        None,
        String::new(),
        String::new(),
        -1,
    );
    assert_eq!(neg.visites, u64::MAX);
}

#[test]
fn user_new_and_merge() {
    let id = uuid::Uuid::nil();
    let mut u = User::new(id, "pepe@gmail.com", "Pepe", false, "abc123.");
    assert_eq!(u.email, "pepe@gmail.com");
    assert_eq!(u.username, "Pepe");
    assert!(!u.deleted);
    let mut p = PartialUser::default();
    p.deleted = Some(true);
    p.username = Some("Pepa".to_string());
    u.merge(p);
    assert!(u.deleted);
    assert_eq!(u.username, "Pepa");
    assert_eq!(u.email, "pepe@gmail.com");
    assert_eq!(u.id, id);
}

#[test]
fn user_merge_full_overwrites() {
    let a_id = uuid::Uuid::nil();
    let b_id = uuid::Uuid::from_u128(7);
    let mut a = User::new(a_id, "a@x", "a", false, "pa");
    let b = User::new(b_id, "b@x", "b", true, "pb");
    a.merge(PartialUser::from(b));
    assert_eq!(a.id, b_id);
    assert_eq!(a.email, "b@x");
    assert_eq!(a.username, "b");
    assert!(a.deleted);
    assert_eq!(a.password, "pb");
}

#[test]
fn ip_info_merge_twice_same_as_once() {
    let mut p = PartialIpInfo::default();
    p.country = Some("FR".to_string());
    p.visites = Some(3);
    let mut once: IpInfo = data("1.2.3.4", "ES").into();
    once.merge(p.clone());
    let mut twice = once.clone();
    twice.merge(p);
    assert_eq!(twice.country, once.country);
    assert_eq!(twice.visites, once.visites);
    assert_eq!(twice.ip, once.ip);
    assert_eq!(twice.city, once.city);
}

#[test]
fn user_clone_keeps_every_field() {
    let id = uuid::Uuid::from_u128(42);
    let u = User::new(id, "c@x", "c", true, "pc");
    let c = u.clone();
    assert_eq!(c.id, id);
    assert_eq!(c.email, "c@x");
    assert_eq!(c.username, "c");
    assert!(c.deleted);
    assert_eq!(c.password, "pc");
}

#[test]
fn partial_user_clone_keeps_every_field() {
    let mut p = PartialUser::default();
    p.id = Some(uuid::Uuid::from_u128(9));
    p.email = Some("d@x".to_string());
    p.deleted = Some(false);
    let c = p.clone();
    assert_eq!(c.id, Some(uuid::Uuid::from_u128(9)));
    assert_eq!(c.email, Some("d@x".to_string()));
    assert_eq!(c.username, None);
    assert_eq!(c.deleted, Some(false));
    assert_eq!(c.password, None);
}
