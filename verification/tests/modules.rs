use atenda::model::fssa::ModSide;
use atenda::model::ip_info::{DataFromIp, IpInfo, PartialIpInfo};
use atenda::modules::ip_info::{countries, update_key, IpInfoPlan};
use atenda::modules::{DbError, Error, FssaModule};

fn data(ip: &str) -> DataFromIp {
    DataFromIp {
        ip: ip.to_string(),
        city: "Lugo".to_string(),
        region: "Galicia".to_string(),
        country: "ES".to_string(),
        loc: "43,-7".to_string(),
        org: None,
        postal: "27001".to_string(),
        timezone: "Europe/Madrid".to_string(),
    }
}

fn names(v: &[&str]) -> Vec<String> {
    v.iter().map(|s| s.to_string()).collect()
}

#[test]
fn fssa_new_builds_catalogue() {
    let m = FssaModule::new(
        "https://host",
        names(&["dp one.zip"]),
        names(&["both.jar"]),
        names(&["srv.jar", "srv2.jar"]),
        names(&["cli.jar"]),
    );
    let p = m.list();
    assert_eq!(p.version, "1.0.0");
    assert_eq!(p.config, "https://host/api/fssa/config");
    assert_eq!(p.datapacks, vec!["https://host/api/fssa/datapack/dp%20one.zip".to_string()]);
    let got: Vec<(u8, &str, &str)> =
        p.mods.iter().map(|m| (m.side.bits(), m.name.as_str(), m.download.as_str())).collect();
    assert_eq!(
        got,
        vec![
            (3, "both.jar", "https://host/api/fssa/mod/both.jar"),
            (1, "srv.jar", "https://host/api/fssa/mod/srv.jar"),
            (1, "srv2.jar", "https://host/api/fssa/mod/srv2.jar"),
            (2, "cli.jar", "https://host/api/fssa/mod/cli.jar"),
        ]
    );
}

#[test]
fn fssa_new_escapes_mod_names() {
    let m = FssaModule::new("", vec![], names(&["a b#c.jar"]), vec![], vec![]);
    assert_eq!(m.list().mods[0].download, "/api/fssa/mod/a%20b%23c.jar");
    assert_eq!(m.list().mods[0].name, "a b#c.jar");
    assert_eq!(m.list().mods[0].side, ModSide::both());
}

#[test]
fn fssa_constants() {
    assert_eq!(FssaModule::MODPACK_FILENAME, "fssa-modpack(1.0.0).zip");
    assert_eq!(FssaModule::MODPACK_VERSION, "1.0.0");
}

#[test]
fn fssa_datapack_path() {
    assert_eq!(FssaModule::datapack_path("x.zip"), Some("data/fssa/datapacks/x.zip".to_string()));
    assert_eq!(FssaModule::datapack_path("../x.zip"), None);
    assert_eq!(FssaModule::datapack_path("a/b"), None);
}

#[test]
fn fssa_mod_paths() {
    assert_eq!(
        FssaModule::mod_paths("m.jar"),
        vec![
            "data/fssa/both/m.jar".to_string(),
            "data/fssa/server/m.jar".to_string(),
            "data/fssa/client/m.jar".to_string(),
        ]
    );
    assert!(FssaModule::mod_paths("..").is_empty());
    assert!(FssaModule::mod_paths("c:\\x").is_empty());
}

#[test]
fn visit_of_known_address_counts_one_more() {
    let mut known: IpInfo = data("9.9.9.9").into();
    known.visites = 4;
    known.city = "Stored".to_string();
    match IpInfoPlan::for_visit(Ok(known), data("9.9.9.9")) {
        Ok(IpInfoPlan::Update(u)) => {
            assert_eq!(u.visites, 5);
            assert_eq!(u.city, "Stored");
        }
        other => panic!("{:?}", other),
    }
}

#[test]
fn visit_of_unknown_address_is_first_visit() {
    match IpInfoPlan::for_visit(Err(Error::InvalidOperation), data("8.8.8.8")) {
        Ok(IpInfoPlan::Insert(i)) => {
            assert_eq!(i.visites, 1);
            assert_eq!(i.ip, "8.8.8.8");
            assert_eq!(i.city, "Lugo");
        }
        other => panic!("{:?}", other),
    }
}

#[test]
fn visit_passes_other_failures_on() {
    assert!(matches!(
        IpInfoPlan::for_visit(Err(Error::InvalidInput), data("1.1.1.1")),
        Err(Error::InvalidInput)
    ));
    let db = DbError { code: Some(5), message: Some("busy".to_string()) };
    match IpInfoPlan::for_visit(Err(Error::DbError(db)), data("1.1.1.1")) {
        Err(Error::DbError(e)) => {
            assert_eq!(e.code, Some(5));
            assert_eq!(e.message.as_deref(), Some("busy"));
        }
        other => panic!("{:?}", other),
    }
}

#[test]
fn update_key_needs_an_address() {
    let mut p = PartialIpInfo::default();
    assert!(matches!(update_key(&p), Err(Error::InvalidInput)));
    p.ip = Some("1.2.3.4".to_string());
    assert_eq!(update_key(&p).unwrap(), "1.2.3.4");
}

#[test]
fn db_error_into_error() {
    let e: Error = DbError { code: None, message: None }.into();
    assert!(matches!(e, Error::DbError(_)));
}

#[test]
fn update_writes_partial_over_found_record() {
    let base: IpInfo = data("2.2.2.2").into();
    let mut p = PartialIpInfo::default();
    p.ip = Some("2.2.2.2".to_string());
    p.city = Some("Santiago".to_string());
    match IpInfoPlan::for_update(Ok(base), p) {
        Ok(u) => {
            assert_eq!(u.city, "Santiago");
            assert_eq!(u.region, "Galicia");
            assert_eq!(u.visites, 1);
        }
        other => panic!("{:?}", other),
    }
}

#[test]
fn update_of_unknown_address_fails() {
    let p = PartialIpInfo::default();
    assert!(matches!(IpInfoPlan::for_update(Err(Error::InvalidOperation), p), Err(Error::InvalidOperation)));
}

#[test]
fn second_visit_counts_two() {
    let first = match IpInfoPlan::for_visit(Err(Error::InvalidOperation), data("3.3.3.3")) {
        Ok(IpInfoPlan::Insert(i)) => i,
        other => panic!("{:?}", other),
    };
    match IpInfoPlan::for_visit(Ok(first), data("3.3.3.3")) {
        Ok(IpInfoPlan::Update(u)) => {
            assert_eq!(u.visites, 2);
            assert_eq!(u.ip, "3.3.3.3");
            assert_eq!(u.postal, "27001");
        }
        other => panic!("{:?}", other),
    }
}

#[test]
fn countries_lists_each_record_country_in_order() {
    let mut a = IpInfo::from(data("1.1.1.1"));
    a.country = "PT".to_string();
    let b = IpInfo::from(data("2.2.2.2"));
    let c = IpInfo::from(data("3.3.3.3"));
    assert_eq!(countries(&vec![a, b, c]), vec!["PT".to_string(), "ES".to_string(), "ES".to_string()]);
    assert!(countries(&Vec::new()).is_empty());
}
