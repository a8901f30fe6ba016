use delphos::inference::{bearer, completions_url, response_from_reply, ProviderKeys};
use delphos::project::{GlobalSettings, Project, ProjectId, ProjectRegistry, ProjectSettings};
use delphos::realm_id::RealmId;
use delphos::router::RoutePolicy;
use delphos::text_map::TextMap;

#[test]
fn create() {
    let p = Project::new("BKG", "./");
    assert!(p.id.0.starts_with("P-"));
}

#[test]
fn project_ids_are_uppercase_hex() {
    let id = ProjectId::new();
    assert_eq!(id.0.len(), 10);
    assert!(id.0[2..].chars().all(|c| c.is_ascii_digit() || ('A'..='F').contains(&c)));
    assert_eq!(id.to_text(), id.0);
}

#[test]
fn register_and_list() {
    let mut r = ProjectRegistry::new();
    r.register(Project::new("A", "/a"));
    r.register(Project::new("B", "/b"));
    assert_eq!(r.count(), 2);
    let list = r.list();
    assert_eq!(list[0].name, "A");
}

#[test]
fn default_project() {
    let mut r = ProjectRegistry::new();
    let p = Project::new("X", "/x");
    let id = p.id.clone();
    r.register(p);
    r.set_default(id);
    assert!(r.default_project().is_some());
}

#[test]
fn list_sorts_by_name_and_register_replaces() {
    let mut r = ProjectRegistry::new();
    r.register(Project::new("zeta", "/z"));
    r.register(Project::new("alpha", "/a"));
    let mut m = Project::new("mid", "/m");
    let id = r.register(m.clone()).clone();
    m.path = "/other".into();
    r.register(m);
    assert_eq!(r.count(), 3);
    let names: Vec<&str> = r.list().iter().map(|p| p.name.as_str()).collect();
    assert_eq!(names, vec!["alpha", "mid", "zeta"]);
    assert_eq!(r.get(&id).unwrap().path, "/other");
    assert!(r.default_project().is_none());
}

#[test]
fn default_settings() {
    let s = ProjectSettings::default();
    assert!(s.model_lanes.executor.is_none() && s.max_concurrent_tasks.is_none() && !s.free_providers_only);
    assert!(s.custom.is_null());
    let g = GlobalSettings::default();
    assert!(g.default_project_id.is_none() && g.custom.is_null());
}

#[test]
fn route_policy() {
    let p = RoutePolicy::allow_all().deny(RealmId::Katoptron, RealmId::Telum);
    assert!(!p.is_permitted(RealmId::Katoptron, RealmId::Telum));
    assert!(p.is_permitted(RealmId::Telum, RealmId::Katoptron));
    assert!(RoutePolicy::default().is_permitted(RealmId::Styx, RealmId::Mensa));
}

fn keys(pairs: &[(&str, &str)]) -> TextMap<String> {
    let mut m = TextMap::new();
    for (k, v) in pairs {
        m.insert(k.to_string(), v.to_string());
    }
    m
}

#[test]
fn resolve_anthropic() {
    let proxy = ProviderKeys::new(keys(&[]), keys(&[]));
    let (key, base) = proxy.resolve("anthropic/haiku-3-5", None);
    assert!(key.is_none());
    assert!(base.contains("anthropic"));
}

#[test]
fn user_key_wins() {
    let proxy = ProviderKeys::new(keys(&[("anthropic", "sk-user")]), keys(&[("anthropic", "sk-admin")]));
    let (key, _) = proxy.resolve("anthropic/sonnet-3-5", None);
    assert_eq!(key.as_deref(), Some("sk-user"));
}

#[test]
fn admin_key_and_base_urls() {
    let proxy = ProviderKeys::new(keys(&[]), keys(&[("openai", "sk-admin")]));
    assert_eq!(proxy.resolve("openai/gpt-4o", None), (Some("sk-admin".to_string()), "https://api.openai.com".to_string()));
    assert_eq!(proxy.resolve("ollama/llama3", None).1, "http://localhost:11434");
    assert_eq!(proxy.resolve("ollama/llama3", Some("http://gpu:1")).1, "http://gpu:1");
    assert_eq!(proxy.resolve("mistral/large", None).1, "https://api.mistral.com");
    assert_eq!(proxy.resolve("deepinfra", None).1, "https://api.deepinfra.com/v1/openai");
}

#[test]
fn text_map_keeps_byte_order() {
    let mut m = keys(&[("b", "2"), ("a", "1"), ("é", "3"), ("Z", "0")]);
    let ks: Vec<&str> = m.entries().iter().map(|(k, _)| k.as_str()).collect();
    assert_eq!(ks, vec!["Z", "a", "b", "é"]);
    assert_eq!(m.insert("a".into(), "9".into()), Some("1".into()));
    assert_eq!(m.get("a").map(|s| s.as_str()), Some("9"));
    assert_eq!(m.remove("b"), Some("2".into()));
    assert!(!m.contains_key("b"));
    assert_eq!(m.len(), 3);
}

#[test]
fn completion_endpoint_and_header() {
    assert_eq!(completions_url("https://api.openai.com"), "https://api.openai.com/v1/chat/completions");
    assert_eq!(bearer("sk-user"), "Bearer sk-user");
}

#[test]
fn response_from_full_reply() {
    let r = response_from_reply(
        "anthropic/model-a".to_string(),
        Some("hello"),
        Some(12),
        Some(34),
        Some("stop"),
    );
    assert_eq!(r.model, "anthropic/model-a");
    assert_eq!(r.provider_id, "anthropic");
    assert_eq!(r.reply, "hello");
    assert_eq!(r.input_tokens, 12);
    assert_eq!(r.output_tokens, 34);
    assert_eq!(r.stop_reason.as_deref(), Some("stop"));
}

#[test]
fn response_defaults_and_truncated_counts() {
    let r = response_from_reply("local".to_string(), None, None, Some((1u64 << 32) + 5), None);
    assert_eq!(r.provider_id, "local");
    assert_eq!(r.reply, "");
    assert_eq!(r.input_tokens, 0);
    assert_eq!(r.output_tokens, 5);
    assert!(r.stop_reason.is_none());
}
