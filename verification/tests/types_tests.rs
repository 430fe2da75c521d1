use perry_container_compose::entities::service::DictValue;
use perry_container_compose::strmap::StrMap;
use perry_container_compose::types::{CommandValue, ComposeService, DependsOnSpec, ListOrDict};

#[test]
fn list_or_dict_drops_missing_values() {
    let mut m = StrMap::new();
    m.insert("A".to_string(), Some(DictValue::Num("3".to_string())));
    m.insert("B".to_string(), None);
    m.insert("C".to_string(), Some(DictValue::Bool(true)));
    let r = ListOrDict::Dict(m).to_map();
    assert_eq!(r.len(), 2);
    assert_eq!(r.get("A").unwrap(), "3");
    assert_eq!(r.get("C").unwrap(), "true");
    assert!(r.get("B").is_none());
}

#[test]
fn list_or_dict_list_needs_equals() {
    let l = ListOrDict::List(vec!["A=1".to_string(), "B".to_string(), "A=2".to_string(), "C=x=y".to_string()]);
    let r = l.to_map();
    assert_eq!(r.len(), 2);
    assert_eq!(r.get("A").unwrap(), "2");
    assert_eq!(r.get("C").unwrap(), "x=y");
}

#[test]
fn command_lists() {
    let s = ComposeService { command: Some(CommandValue::Text("  echo  hi\tthere ".to_string())), ..Default::default() };
    assert_eq!(s.command_list().unwrap(), vec!["echo", "hi", "there"]);
    let l = ComposeService {
        command: Some(CommandValue::Items(vec![Some("a".to_string()), None, Some("b c".to_string())])),
        ..Default::default()
    };
    assert_eq!(l.command_list().unwrap(), vec!["a", "b c"]);
    let o = ComposeService { command: Some(CommandValue::Other), ..Default::default() };
    assert!(o.command_list().is_none());
    assert!(ComposeService::default().command_list().is_none());
}

#[test]
fn service_accessors() {
    let s = ComposeService {
        image: Some("img".to_string()),
        ports: Some(vec!["1:1".to_string()]),
        environment: Some(ListOrDict::List(vec!["K=V".to_string()])),
        ..Default::default()
    };
    assert_eq!(s.image_ref("svc"), "img");
    assert_eq!(ComposeService::default().image_ref("svc"), "svc");
    assert_eq!(s.port_strings(), vec!["1:1"]);
    assert!(s.volume_strings().is_empty());
    assert_eq!(s.resolved_env().get("K").unwrap(), "V");
    assert!(ComposeService::default().resolved_env().is_empty());
}

#[test]
fn depends_on_names() {
    assert_eq!(DependsOnSpec::List(vec!["b".to_string(), "a".to_string()]).service_names(), vec!["b", "a"]);
    let mut m = StrMap::new();
    m.insert("z".to_string(), "{}".to_string());
    m.insert("y".to_string(), "{}".to_string());
    assert_eq!(DependsOnSpec::Mapping(m).service_names(), vec!["z", "y"]);
}
