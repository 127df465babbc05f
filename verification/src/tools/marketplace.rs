//! The skills marketplace's HTTP interface: which request goes to which
//! operation, and what each outcome answers. Serving HTTP and running the
//! skills happen outside.
use vstd::prelude::*;
use crate::text::{concat2, concat3, owned, same_text, views};
use crate::tools::wasm_runtime::SkillInfo;

verus! {

/// A request to install a skill.
#[derive(Debug, Clone)]
pub struct InstallSkillRequest {
    pub name: String,
    pub version: Option<String>,
    pub wasm_url: Option<String>,
}

/// A skill as the marketplace lists it.
#[derive(Debug, Clone)]
pub struct MarketSkill {
    pub id: String,
    pub name: String,
    pub version: String,
    pub description: Option<String>,
    pub author: Option<String>,
    pub installed: bool,
}

/// The data an answer carries.
#[derive(Debug, Clone)]
pub enum ResponseData {
    /// The listed skills.
    Skills(Vec<MarketSkill>),
    /// One skill.
    Skill(SkillInfo),
    /// The output of a run, as text.
    Output(String),
}

/// What the marketplace answers: whether it worked, a message, and data.
#[derive(Debug, Clone)]
pub struct ApiResponse {
    pub success: bool,
    pub message: String,
    pub data: Option<ResponseData>,
}

/// `m` lists the loaded skill `info`: under its name as id, installed, with
/// no author (the runtime does not keep one).
pub open spec fn lists(m: MarketSkill, info: SkillInfo) -> bool {
    &&& m.id@ == info.name@
    &&& m.name@ == info.name@
    &&& m.version@ == info.version@
    &&& match (m.description, info.description) {
        (Some(a), Some(b)) => a@ == b@,
        (None, None) => true,
        _ => false,
    }
    &&& m.author is None
    &&& m.installed
}

fn market_skill(info: &SkillInfo) -> (m: MarketSkill)
    ensures
        lists(m, *info),
{
    MarketSkill {
        id: info.name.clone(),
        name: info.name.clone(),
        version: info.version.clone(),
        description: match &info.description {
            Some(d) => Some(d.clone()),
            None => None,
        },
        author: None,
        installed: true,
    }
}

/// An operation of the marketplace.
#[derive(Debug, Clone)]
pub enum MarketplaceRoute {
    ListSkills,
    GetSkill(String),
    InstallSkill,
    DeleteSkill(String),
    ExecuteSkill(String),
    Health,
    /// No operation matches.
    Unknown,
}

/// An operation as plain values.
pub enum MarketplaceRouteView {
    ListSkills,
    GetSkill(Seq<char>),
    InstallSkill,
    DeleteSkill(Seq<char>),
    ExecuteSkill(Seq<char>),
    Health,
    Unknown,
}

impl View for MarketplaceRoute {
    type V = MarketplaceRouteView;

    open spec fn view(&self) -> MarketplaceRouteView {
        match self {
            MarketplaceRoute::ListSkills => MarketplaceRouteView::ListSkills,
            MarketplaceRoute::GetSkill(n) => MarketplaceRouteView::GetSkill(n@),
            MarketplaceRoute::InstallSkill => MarketplaceRouteView::InstallSkill,
            MarketplaceRoute::DeleteSkill(n) => MarketplaceRouteView::DeleteSkill(n@),
            MarketplaceRoute::ExecuteSkill(n) => MarketplaceRouteView::ExecuteSkill(n@),
            MarketplaceRoute::Health => MarketplaceRouteView::Health,
            MarketplaceRoute::Unknown => MarketplaceRouteView::Unknown,
        }
    }
}

/// The operation of a request with method `m` and path segments `p`, the
/// routes tried in the order: list, get, install, delete, execute, health.
pub open spec fn route_of(m: Seq<char>, p: Seq<Seq<char>>) -> MarketplaceRouteView {
    let api = p.len() >= 2 && p[0] == "api"@ && p[1] == "skills"@;
    if m == "GET"@ && api && p.len() == 2 {
        MarketplaceRouteView::ListSkills
    } else if m == "GET"@ && api && p.len() == 3 {
        MarketplaceRouteView::GetSkill(p[2])
    } else if m == "POST"@ && api && p.len() == 3 && p[2] == "install"@ {
        MarketplaceRouteView::InstallSkill
    } else if m == "DELETE"@ && api && p.len() == 3 {
        MarketplaceRouteView::DeleteSkill(p[2])
    } else if m == "POST"@ && api && p.len() == 4 && p[3] == "execute"@ {
        MarketplaceRouteView::ExecuteSkill(p[2])
    } else if m == "GET"@ && p.len() == 1 && p[0] == "health"@ {
        MarketplaceRouteView::Health
    } else {
        MarketplaceRouteView::Unknown
    }
}

fn is_api_skills(p: &Vec<String>) -> (b: bool)
    ensures
        b == (p@.len() >= 2 && views(p@)[0] == "api"@ && views(p@)[1] == "skills"@),
{
    if p.len() < 2 {
        return false;
    }
    assert(views(p@)[0] == p@[0]@ && views(p@)[1] == p@[1]@);
    same_text(p[0].as_str(), "api") && same_text(p[1].as_str(), "skills")
}

/// The marketplace.
pub struct Marketplace;

impl Marketplace {
    /// The operation of a request.
    pub fn route(method: &str, path: &Vec<String>) -> (r: MarketplaceRoute)
        ensures
            r@ == route_of(method@, views(path@)),
    {
        let ghost p = views(path@);
        assert(p.len() == path@.len());
        let api = is_api_skills(path);
        let get = same_text(method, "GET");
        let post = same_text(method, "POST");
        let delete = same_text(method, "DELETE");
        let n = path.len();
        if get && api && n == 2 {
            return MarketplaceRoute::ListSkills;
        }
        if get && api && n == 3 {
            assert(p[2] == path@[2]@);
            return MarketplaceRoute::GetSkill(path[2].clone());
        }
        let third_install = n == 3 && same_text(path[2].as_str(), "install");
        proof {
            if n == 3 {
                assert(p[2] == path@[2]@);
            }
        }
        if post && api && third_install {
            return MarketplaceRoute::InstallSkill;
        }
        if delete && api && n == 3 {
            assert(p[2] == path@[2]@);
            return MarketplaceRoute::DeleteSkill(path[2].clone());
        }
        let fourth_execute = n == 4 && same_text(path[3].as_str(), "execute");
        proof {
            if n == 4 {
                assert(p[3] == path@[3]@);
            }
        }
        if post && api && fourth_execute {
            assert(p[2] == path@[2]@);
            return MarketplaceRoute::ExecuteSkill(path[2].clone());
        }
        let only_health = n == 1 && same_text(path[0].as_str(), "health");
        proof {
            if n == 1 {
                assert(p[0] == path@[0]@);
            }
        }
        if get && only_health {
            return MarketplaceRoute::Health;
        }
        MarketplaceRoute::Unknown
    }

    fn reply(success: bool, message: String) -> (r: ApiResponse)
        ensures
            r.success == success && r.message@ == message@ && r.data is None,
    {
        ApiResponse { success, message, data: None }
    }

    /// The answer to a listing, carrying the loaded skills.
    pub fn listed(skills: &Vec<SkillInfo>) -> (r: ApiResponse)
        ensures
            r.success && r.message@ == "Skills listed successfully"@,
            r.data matches Some(ResponseData::Skills(ms)) && ms@.len() == skills@.len()
                && forall|i: int| 0 <= i < ms@.len() ==> lists(#[trigger] ms@[i], skills@[i]),
    {
        let mut ms: Vec<MarketSkill> = Vec::new();
        let mut i: usize = 0;
        while i < skills.len()
            invariant
                i <= skills@.len(),
                ms@.len() == i,
                forall|k: int| 0 <= k < i ==> lists(#[trigger] ms@[k], skills@[k]),
            decreases skills@.len() - i,
        {
            ms.push(market_skill(&skills[i]));
            i = i + 1;
        }
        ApiResponse { success: true, message: owned("Skills listed successfully"), data: Some(ResponseData::Skills(ms)) }
    }

    /// The answer to asking for a skill: its information when found.
    pub fn lookup(info: Option<SkillInfo>) -> (r: ApiResponse)
        ensures
            r.success == info is Some,
            r.message@ == if info is Some { "Skill found"@ } else { "Skill not found"@ },
            match info {
                Some(i) => r.data == Some(ResponseData::Skill(i)),
                None => r.data is None,
            },
    {
        match info {
            Some(i) => ApiResponse { success: true, message: owned("Skill found"), data: Some(ResponseData::Skill(i)) },
            None => Self::reply(false, owned("Skill not found")),
        }
    }

    /// The answer to an installation: done, or failed with an error.
    pub fn installed(name: &str, error: Option<&str>) -> (r: ApiResponse)
        ensures
            r.success == error is None,
            r.data is None,
            r.message@ == match error {
                None => "Skill '"@ + name@ + "' installed successfully"@,
                Some(e) => "Failed to install skill: "@ + e@,
            },
    {
        match error {
            None => Self::reply(true, concat3("Skill '", name, "' installed successfully")),
            Some(e) => Self::reply(false, concat2("Failed to install skill: ", e)),
        }
    }

    /// The answer to a removal: removed, or not found.
    pub fn removed(name: &str, was_loaded: bool) -> (r: ApiResponse)
        ensures
            r.success == was_loaded,
            r.data is None,
            r.message@ == if was_loaded { "Skill '"@ + name@ + "' removed"@ } else { "Skill not found"@ },
    {
        if was_loaded {
            Self::reply(true, concat3("Skill '", name, "' removed"))
        } else {
            Self::reply(false, owned("Skill not found"))
        }
    }

    /// The answer to a run: done with its output as text, or failed with an
    /// error.
    pub fn executed(result: Result<String, String>) -> (r: ApiResponse)
        ensures
            r.success == result is Ok,
            match result {
                Ok(out) => r.message@ == "Skill executed successfully"@ && r.data == Some(ResponseData::Output(out)),
                Err(e) => r.message@ == "Execution failed: "@ + e@ && r.data is None,
            },
    {
        match result {
            Ok(out) => ApiResponse {
                success: true,
                message: owned("Skill executed successfully"),
                data: Some(ResponseData::Output(out)),
            },
            Err(e) => Self::reply(false, concat2("Execution failed: ", e.as_str())),
        }
    }

    /// The answer to a health check.
    pub fn health() -> (r: ApiResponse)
        ensures
            r.success && r.message@ == "Marketplace server is running"@,
            r.data is None,
    {
        Self::reply(true, owned("Marketplace server is running"))
    }
}

} // verus!
