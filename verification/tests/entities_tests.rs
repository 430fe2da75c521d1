use perry_container_compose::entities::compose::{Compose, ComposeNetwork};
use perry_container_compose::entities::service::{
    DependsOn, DictValue, ListOrDict, PortEntry, RestartPolicy, Service, ServiceNetworkConfig, ServiceNetworks,
    ServicePort, ServiceVolume, StringOrList, VolumeEntry,
};
use perry_container_compose::strmap::StrMap;

#[test]
fn generated_names() {
    let mut s = Service::default();
    s.image = Some("abc".to_string());
    // md5("abc") starts 90015098
    assert_eq!(s.generate_name("my svc").unwrap(), "my_svc_90015098");
    s.name = Some("explicit".to_string());
    assert_eq!(s.generate_name("x").unwrap(), "explicit");
}

#[test]
fn image_and_build() {
    let mut s = Service::default();
    assert_eq!(s.image_ref("web"), "web-image");
    assert!(!s.needs_build());
    s.build = Some(perry_container_compose::entities::service::BuildEntry::String(".".to_string()));
    assert!(s.needs_build());
    s.image = Some("i".to_string());
    assert!(!s.needs_build());
    assert_eq!(s.image_ref("web"), "i");
}

#[test]
fn list_or_dict_to_map() {
    let mut m = StrMap::new();
    m.insert("N".to_string(), Some(DictValue::Num("1".to_string())));
    m.insert("E".to_string(), None);
    let d = ListOrDict::Dict(m).to_map();
    assert_eq!(d.get("N").unwrap(), "1");
    assert_eq!(d.get("E").unwrap(), "");
    let l = ListOrDict::List(vec!["A=1".to_string(), "B".to_string()]).to_map();
    assert_eq!(l.get("A").unwrap(), "1");
    assert_eq!(l.get("B").unwrap(), "");
}

#[test]
fn port_and_volume_forms() {
    assert_eq!(PortEntry::Short("8080".to_string()).to_string_form(), "8080");
    let long = PortEntry::Long(ServicePort {
        name: None,
        mode: None,
        host_ip: None,
        target: "80".to_string(),
        published: Some("\"8080\"".to_string()),
        protocol: None,
        app_protocol: None,
    });
    assert_eq!(long.to_string_form(), "8080:80");
    let v = VolumeEntry::Long(ServiceVolume {
        volume_type: "bind".to_string(),
        source: Some("./data".to_string()),
        target: Some("/data".to_string()),
        read_only: Some(true),
        consistency: None,
    });
    assert_eq!(v.to_string_form(), "./data:/data:ro");
    assert_eq!(VolumeEntry::Short("a:b".to_string()).to_string_form(), "a:b");
}

#[test]
fn lists_and_names() {
    assert_eq!(StringOrList::String("x".to_string()).to_list(), vec!["x"]);
    assert_eq!(StringOrList::List(vec!["a".to_string(), "b".to_string()]).to_list(), vec!["a", "b"]);
    assert_eq!(DependsOn::List(vec!["db".to_string()]).service_names(), vec!["db"]);
    let mut nets = StrMap::new();
    nets.insert("b".to_string(), None::<ServiceNetworkConfig>);
    nets.insert("a".to_string(), None);
    assert_eq!(ServiceNetworks::Mapping(nets).names(), vec!["b", "a"]);
    assert_eq!(ServiceNetworks::List(vec!["n".to_string()]).names(), vec!["n"]);
    assert!(RestartPolicy::default() == RestartPolicy::No);
}

#[test]
fn merge_later_document_wins() {
    let mut a = Compose::default();
    a.name = Some("first".to_string());
    let mut s1 = Service::default();
    s1.image = Some("old".to_string());
    a.services.insert("web".to_string(), s1);
    a.services.insert("db".to_string(), Service::default());
    let mut b = Compose::default();
    let mut s2 = Service::default();
    s2.image = Some("new".to_string());
    b.services.insert("web".to_string(), s2);
    let mut nets = StrMap::new();
    nets.insert("n".to_string(), ComposeNetwork::default());
    b.networks = Some(nets);
    a.merge(b);
    assert_eq!(a.name.as_deref(), Some("first"));
    assert_eq!(a.services.len(), 2);
    assert_eq!(a.services.get("web").unwrap().image.as_deref(), Some("new"));
    assert!(a.services.get("db").is_some());
    assert_eq!(a.networks.unwrap().len(), 1);
}

#[test]
fn merge_includes_and_models_later_wins() {
    let mut a = Compose::default();
    a.includes = Some(vec!["\"a.yml\"".to_string()]);
    let mut m = StrMap::new();
    m.insert("llm".to_string(), "{}".to_string());
    a.models = Some(m);
    let mut b = Compose::default();
    b.includes = Some(vec!["\"b.yml\"".to_string()]);
    a.merge(b);
    assert_eq!(a.includes, Some(vec!["\"b.yml\"".to_string()]));
    assert_eq!(a.models.as_ref().unwrap().keys(), vec!["llm"]);
    assert_eq!(a.services.keys(), Vec::<String>::new());
}
