use ant::tools::marketplace::{Marketplace, MarketplaceRoute, ResponseData};
use ant::tools::wasm_runtime::{SkillInfo, SkillManifest, SkillRegistry};

fn path(p: &[&str]) -> Vec<String> {
    p.iter().map(|s| s.to_string()).collect()
}

#[test]
fn routes_in_order() {
    assert!(matches!(Marketplace::route("GET", &path(&["api", "skills"])), MarketplaceRoute::ListSkills));
    assert!(matches!(Marketplace::route("GET", &path(&["api", "skills", "install"])), MarketplaceRoute::GetSkill(n) if n == "install"));
    assert!(matches!(Marketplace::route("POST", &path(&["api", "skills", "install"])), MarketplaceRoute::InstallSkill));
    assert!(matches!(Marketplace::route("DELETE", &path(&["api", "skills", "x"])), MarketplaceRoute::DeleteSkill(n) if n == "x"));
    assert!(matches!(Marketplace::route("POST", &path(&["api", "skills", "x", "execute"])), MarketplaceRoute::ExecuteSkill(n) if n == "x"));
    assert!(matches!(Marketplace::route("GET", &path(&["health"])), MarketplaceRoute::Health));
    assert!(matches!(Marketplace::route("POST", &path(&["health"])), MarketplaceRoute::Unknown));
    assert!(matches!(Marketplace::route("PUT", &path(&["api", "skills"])), MarketplaceRoute::Unknown));
}

#[test]
fn answers() {
    assert_eq!(Marketplace::installed("x", None).message, "Skill 'x' installed successfully");
    let f = Marketplace::installed("x", Some("missing"));
    assert!(!f.success);
    assert_eq!(f.message, "Failed to install skill: missing");
    assert_eq!(Marketplace::removed("x", false).message, "Skill not found");
    let failed = Marketplace::executed(Err("trap".to_string()));
    assert_eq!(failed.message, "Execution failed: trap");
    assert!(failed.data.is_none());
    let ran = Marketplace::executed(Ok("42".to_string()));
    assert!(ran.success);
    assert!(matches!(ran.data, Some(ResponseData::Output(o)) if o == "42"));
    let health = Marketplace::health();
    assert!(health.success);
    assert_eq!(health.message, "Marketplace server is running");
    assert!(health.data.is_none());
    assert!(Marketplace::installed("x", None).data.is_none());
    assert!(Marketplace::removed("x", true).data.is_none());
    assert_eq!(Marketplace::removed("x", true).message, "Skill 'x' removed");
    let missing = Marketplace::lookup(None);
    assert!(!missing.success);
    assert!(missing.data.is_none());
}

#[test]
fn answers_carry_skill_data() {
    let mut reg = SkillRegistry::new();
    let mut m = SkillManifest::default_for("echo");
    m.description = Some("repeats".to_string());
    reg.load("echo", m, vec![0, 97, 115, 109]);
    reg.load("sum", SkillManifest::default_for("sum"), vec![]);
    let listed = Marketplace::listed(&reg.list_skills());
    assert_eq!(listed.message, "Skills listed successfully");
    match listed.data {
        Some(ResponseData::Skills(ms)) => {
            assert_eq!(ms.len(), 2);
            assert_eq!(ms[0].id, "echo");
            assert_eq!(ms[0].description.as_deref(), Some("repeats"));
            assert!(ms[0].installed && ms[0].author.is_none());
            assert_eq!(ms[1].name, "sum");
        }
        other => panic!("expected skills, got {:?}", other),
    }
    let found = Marketplace::lookup(reg.get_skill_info("echo"));
    assert!(found.success);
    assert_eq!(found.message, "Skill found");
    assert!(matches!(found.data, Some(ResponseData::Skill(SkillInfo { name, execution_count: 0, .. })) if name == "echo"));
}
