//! Projects: their identifiers and settings, and the registry that holds
//! them.

use vstd::prelude::*;
use crate::ids::{fresh_uuid, is_lower_hex};
use crate::kernel_machine::{now_utc, Timestamp};
use crate::projection_contract::json_text;
use crate::realm_state::json_null;
use crate::text::{bytes_lt, lemma_lex_asymmetric, lemma_lex_transitive, lex_lt, same_text};

verus! {

broadcast use vstd::seq_lib::group_to_multiset_ensures;

// ─── ProjectId ───────────────────────────────────────────────────────────────

/// An uppercase hexadecimal digit.
pub open spec fn is_upper_hex(c: char) -> bool {
    ('0' <= c && c <= '9') || ('A' <= c && c <= 'F')
}

/// A project identifier: `P-` and eight uppercase hexadecimal digits.
#[derive(Debug, Clone, PartialEq, Eq, Hash)]
pub struct ProjectId(pub String);

impl ProjectId {
    /// `P-` and the first eight digits of a fresh random UUID, in uppercase.
    pub fn new() -> (r: Self)
        ensures
            r.0@.len() == 10,
            r.0@[0] == 'P',
            r.0@[1] == '-',
            forall|i: int| 2 <= i < 10 ==> is_upper_hex(#[trigger] r.0@[i]),
    {
        let uuid = fresh_uuid();
        let mut s = String::from_str("P-");
        proof {
            reveal_strlit("P-");
        }
        let mut k: usize = 0;
        while k < 8
            invariant
                k <= 8,
                uuid@.len() == 36,
                forall|i: int| 0 <= i < 8 ==> is_lower_hex(#[trigger] uuid@[i]),
                s@.len() == 2 + k,
                s@[0] == 'P',
                s@[1] == '-',
                forall|i: int| 2 <= i < 2 + k ==> is_upper_hex(#[trigger] s@[i]),
            decreases 8 - k,
        {
            let c = uuid.as_str().get_char(k);
            assert(is_lower_hex(uuid@[k as int]));
            let u = if 'a' <= c && c <= 'f' {
                upper_hex_digit(c)
            } else {
                c
            };
            let ghost before = s@;
            let piece = char_str(u);
            s.append(piece.as_str());
            assert(s@ =~= before.push(u));
            k = k + 1;
        }
        ProjectId(s)
    }

    /// The identifier's text.
    pub fn to_text(&self) -> (r: String)
        ensures
            r@ == self.0@,
    {
        self.0.clone()
    }
}

/// The uppercase form of a lowercase hexadecimal letter.
fn upper_hex_digit(c: char) -> (r: char)
    requires
        'a' <= c && c <= 'f',
    ensures
        is_upper_hex(r),
{
    if c == 'a' {
        'A'
    } else if c == 'b' {
        'B'
    } else if c == 'c' {
        'C'
    } else if c == 'd' {
        'D'
    } else if c == 'e' {
        'E'
    } else {
        'F'
    }
}

/// A one-character string holding an uppercase hexadecimal digit.
fn char_str(c: char) -> (r: String)
    requires
        is_upper_hex(c),
    ensures
        r@ == seq![c],
{
    let t: &str = if c == '0' {
        "0"
    } else if c == '1' {
        "1"
    } else if c == '2' {
        "2"
    } else if c == '3' {
        "3"
    } else if c == '4' {
        "4"
    } else if c == '5' {
        "5"
    } else if c == '6' {
        "6"
    } else if c == '7' {
        "7"
    } else if c == '8' {
        "8"
    } else if c == '9' {
        "9"
    } else if c == 'A' {
        "A"
    } else if c == 'B' {
        "B"
    } else if c == 'C' {
        "C"
    } else if c == 'D' {
        "D"
    } else if c == 'E' {
        "E"
    } else {
        "F"
    };
    proof {
        reveal_strlit("0");
        reveal_strlit("1");
        reveal_strlit("2");
        reveal_strlit("3");
        reveal_strlit("4");
        reveal_strlit("5");
        reveal_strlit("6");
        reveal_strlit("7");
        reveal_strlit("8");
        reveal_strlit("9");
        reveal_strlit("A");
        reveal_strlit("B");
        reveal_strlit("C");
        reveal_strlit("D");
        reveal_strlit("E");
        reveal_strlit("F");
    }
    String::from_str(t)
}

impl Default for ProjectId {
    fn default() -> (r: Self)
        ensures
            r.0@.len() == 10,
            r.0@[0] == 'P',
            r.0@[1] == '-',
            forall|i: int| 2 <= i < 10 ==> is_upper_hex(#[trigger] r.0@[i]),
    {
        ProjectId::new()
    }
}

// ─── Settings ────────────────────────────────────────────────────────────────

/// The five model lanes.
#[derive(Debug, Clone)]
pub struct ModelLanes {
    pub executor: Option<String>,
    pub planning: Option<String>,
    pub validator: Option<String>,
    pub title_summarizer: Option<String>,
    pub workflow_refinement: Option<String>,
}

impl Default for ModelLanes {
    fn default() -> (r: Self)
        ensures
            r.executor is None,
            r.planning is None,
            r.validator is None,
            r.title_summarizer is None,
            r.workflow_refinement is None,
    {
        ModelLanes { executor: None, planning: None, validator: None, title_summarizer: None, workflow_refinement: None }
    }
}

/// The settings of one project.
#[derive(Debug, Clone)]
pub struct ProjectSettings {
    pub model_lanes: ModelLanes,
    pub max_concurrent_tasks: Option<u32>,
    pub free_providers_only: bool,
    pub custom: serde_json::Value,
}

impl Default for ProjectSettings {
    fn default() -> (r: Self)
        ensures
            r.model_lanes.executor is None && r.model_lanes.planning is None && r.model_lanes.validator is None
                && r.model_lanes.title_summarizer is None && r.model_lanes.workflow_refinement is None,
            r.max_concurrent_tasks is None,
            !r.free_providers_only,
            json_text(r.custom) == "null"@,
    {
        ProjectSettings { model_lanes: ModelLanes::default(), max_concurrent_tasks: None, free_providers_only: false, custom: json_null() }
    }
}

/// The settings of the installation.
#[derive(Debug, Clone)]
pub struct GlobalSettings {
    pub model_lanes: ModelLanes,
    pub default_project_id: Option<String>,
    pub free_providers_only: bool,
    pub custom: serde_json::Value,
}

impl Default for GlobalSettings {
    fn default() -> (r: Self)
        ensures
            r.model_lanes.executor is None && r.model_lanes.planning is None && r.model_lanes.validator is None
                && r.model_lanes.title_summarizer is None && r.model_lanes.workflow_refinement is None,
            r.default_project_id is None,
            !r.free_providers_only,
            json_text(r.custom) == "null"@,
    {
        GlobalSettings { model_lanes: ModelLanes::default(), default_project_id: None, free_providers_only: false, custom: json_null() }
    }
}

// ─── Project ─────────────────────────────────────────────────────────────────

/// A project: an identifier, a name, a path and its settings.
#[derive(Debug, Clone)]
pub struct Project {
    pub id: ProjectId,
    pub name: String,
    /// The project's directory.
    pub path: String,
    pub settings: ProjectSettings,
    pub created_at: Timestamp,
}

impl Project {
    /// A project with a fresh identifier and default settings.
    pub fn new(name: &str, path: &str) -> (r: Self)
        ensures
            r.name@ == name@,
            r.path@ == path@,
            r.id.0@.len() == 10 && r.id.0@[0] == 'P' && r.id.0@[1] == '-',
            r.settings.max_concurrent_tasks is None,
            !r.settings.free_providers_only,
    {
        Project {
            id: ProjectId::new(),
            name: name.to_owned(),
            path: path.to_owned(),
            settings: ProjectSettings::default(),
            created_at: now_utc(),
        }
    }
}

// ─── ProjectRegistry ─────────────────────────────────────────────────────────

/// The bytes of a project's name, by which projects are listed.
pub open spec fn name_bytes(p: Project) -> Seq<u8> {
    vstd::utf8::encode_utf8(p.name@)
}

/// The projects are listed by name.
pub open spec fn sorted_by_name(s: Seq<Project>) -> bool {
    forall|i: int, j: int| 0 <= i < j < s.len() ==> !lex_lt(name_bytes(#[trigger] s[j]), name_bytes(#[trigger] s[i]))
}

/// No two projects share an identifier.
pub open spec fn distinct_ids(s: Seq<Project>) -> bool {
    forall|i: int, j: int| 0 <= i < j < s.len() ==> (#[trigger] s[i]).id.0@ != (#[trigger] s[j]).id.0@
}

/// The project registered under `id`, if any.
pub open spec fn project_with(s: Seq<Project>, id: Seq<char>) -> Option<Project> {
    if exists|i: int| 0 <= i < s.len() && (#[trigger] s[i]).id.0@ == id {
        Some(s[choose|i: int| 0 <= i < s.len() && (#[trigger] s[i]).id.0@ == id])
    } else {
        None
    }
}

/// With distinct identifiers, the project at `i` is the one registered
/// under its identifier.
proof fn lemma_project_with_at(s: Seq<Project>, i: int)
    requires
        distinct_ids(s),
        0 <= i < s.len(),
    ensures
        project_with(s, s[i].id.0@) == Some(s[i]),
{
    let j = choose|j: int| 0 <= j < s.len() && (#[trigger] s[j]).id.0@ == s[i].id.0@;
    assert(j == i);
}

/// The registered projects, by identifier, and the default project.
#[derive(Debug)]
pub struct ProjectRegistry {
    projects: Vec<Project>,
    default_id: Option<ProjectId>,
}

impl ProjectRegistry {
    #[verifier::type_invariant]
    closed spec fn wf(&self) -> bool {
        distinct_ids(self.projects@)
    }

    /// The registered projects, in registration order.
    pub closed spec fn spec_projects(&self) -> Seq<Project> {
        self.projects@
    }

    pub closed spec fn spec_default(&self) -> Option<Seq<char>> {
        match self.default_id {
            Some(id) => Some(id.0@),
            None => None,
        }
    }

    /// The project registered under `id`.
    pub open spec fn lookup(&self, id: Seq<char>) -> Option<Project> {
        project_with(self.spec_projects(), id)
    }

    pub fn new() -> (r: Self)
        ensures
            r.spec_projects().len() == 0,
            r.spec_default() is None,
    {
        ProjectRegistry { projects: Vec::new(), default_id: None }
    }

    /// The position of the project registered under `id`.
    fn position(&self, id: &ProjectId) -> (r: Option<usize>)
        ensures
            match r {
                Some(i) => i < self.spec_projects().len() && self.spec_projects()[i as int].id.0@ == id.0@ && self.lookup(id.0@)
                    == Some(self.spec_projects()[i as int]),
                None => self.lookup(id.0@) is None,
            },
    {
        proof {
            use_type_invariant(self);
        }
        let mut k: usize = 0;
        while k < self.projects.len()
            invariant
                k <= self.projects@.len(),
                distinct_ids(self.projects@),
                forall|j: int| 0 <= j < k ==> (#[trigger] self.projects@[j]).id.0@ != id.0@,
            decreases self.projects@.len() - k,
        {
            if same_text(self.projects[k].id.0.as_str(), id.0.as_str()) {
                proof {
                    lemma_project_with_at(self.projects@, k as int);
                }
                return Some(k);
            }
            k = k + 1;
        }
        None
    }

    /// Register a project, replacing one with the same identifier; returns
    /// the identifier it is registered under.
    pub fn register(&mut self, p: Project) -> (r: &ProjectId)
        ensures
            r.0@ == p.id.0@,
            final(self).lookup(p.id.0@) == Some(p),
            forall|x: Seq<char>| x != p.id.0@ ==> #[trigger] final(self).lookup(x) == old(self).lookup(x),
            final(self).spec_default() == old(self).spec_default(),
            final(self).spec_projects().len() == old(self).spec_projects().len() + if old(self).lookup(p.id.0@) is Some {
                0int
            } else {
                1int
            },
    {
        proof {
            use_type_invariant(&*self);
        }
        let ghost s = self.projects@;
        let ghost pid = p.id.0@;
        let pos = self.position(&p.id);
        let mut v: Vec<Project> = Vec::new();
        std::mem::swap(&mut v, &mut self.projects);
        let idx = match pos {
            Some(i) => {
                v.set(i, p);
                i
            },
            None => {
                v.push(p);
                v.len() - 1
            },
        };
        proof {
            let n = v@;
            assert forall|i: int, j: int| 0 <= i < j < n.len() implies (#[trigger] n[i]).id.0@ != (#[trigger] n[j]).id.0@ by {
                if i != idx && j != idx {
                    assert(n[i] == s[i] && n[j] == s[j]);
                } else if i == idx {
                    if j < s.len() {
                        assert(n[j] == s[j]);
                    }
                } else {
                    assert(n[i] == s[i]);
                }
            }
            lemma_project_with_at(n, idx as int);
            assert forall|x: Seq<char>| x != pid implies #[trigger] project_with(n, x) == project_with(s, x) by {
                if exists|i: int| 0 <= i < s.len() && (#[trigger] s[i]).id.0@ == x {
                    let i = choose|i: int| 0 <= i < s.len() && (#[trigger] s[i]).id.0@ == x;
                    lemma_project_with_at(s, i);
                    assert(i != idx);
                    assert(n[i] == s[i]);
                    lemma_project_with_at(n, i);
                } else {
                    if exists|i: int| 0 <= i < n.len() && (#[trigger] n[i]).id.0@ == x {
                        let i = choose|i: int| 0 <= i < n.len() && (#[trigger] n[i]).id.0@ == x;
                        assert(i != idx);
                        assert(n[i] == s[i]);
                    }
                }
            }
        }
        self.projects = v;
        &self.projects[idx].id
    }

    /// The project registered under `id`.
    pub fn get(&self, id: &ProjectId) -> (r: Option<&Project>)
        ensures
            match r {
                Some(p) => self.lookup(id.0@) == Some(*p),
                None => self.lookup(id.0@) is None,
            },
    {
        match self.position(id) {
            Some(i) => Some(&self.projects[i]),
            None => None,
        }
    }

    pub fn set_default(&mut self, id: ProjectId)
        ensures
            final(self).spec_default() == Some(id.0@),
            final(self).spec_projects() == old(self).spec_projects(),
    {
        proof {
            use_type_invariant(&*self);
        }
        self.default_id = Some(id);
    }

    /// The default project, if one is set and registered.
    pub fn default_project(&self) -> (r: Option<&Project>)
        ensures
            match self.spec_default() {
                None => r is None,
                Some(id) => match r {
                    Some(p) => self.lookup(id) == Some(*p),
                    None => self.lookup(id) is None,
                },
            },
    {
        match &self.default_id {
            Some(id) => self.get(id),
            None => None,
        }
    }

    /// Every project, listed by name.
    pub fn list(&self) -> (r: Vec<&Project>)
        ensures
            r@.map_values(|p: &Project| *p).to_multiset() == self.spec_projects().to_multiset(),
            sorted_by_name(r@.map_values(|p: &Project| *p)),
    {
        let mut out: Vec<&Project> = Vec::new();
        let mut k: usize = 0;
        while k < self.projects.len()
            invariant
                k <= self.projects@.len(),
                out@.map_values(|p: &Project| *p).to_multiset() == self.projects@.take(k as int).to_multiset(),
                sorted_by_name(out@.map_values(|p: &Project| *p)),
            decreases self.projects@.len() - k,
        {
            let p = &self.projects[k];
            let key = p.name.as_str().as_bytes();
            let ghost o = out@.map_values(|q: &Project| *q);
            let mut j: usize = 0;
            while j < out.len()
                invariant
                    j <= out@.len(),
                    o == out@.map_values(|q: &Project| *q),
                    key@ == name_bytes(*p),
                    forall|i: int| 0 <= i < j ==> !lex_lt(name_bytes(*p), name_bytes(#[trigger] o[i])),
                ensures
                    j <= out@.len(),
                    forall|i: int| 0 <= i < j ==> !lex_lt(name_bytes(*p), name_bytes(#[trigger] o[i])),
                    j < out@.len() ==> lex_lt(name_bytes(*p), name_bytes(o[j as int])),
                decreases out@.len() - j,
            {
                if bytes_lt(key, out[j].name.as_str().as_bytes()) {
                    break;
                }
                j = j + 1;
            }
            out.insert(j, p);
            proof {
                let n = out@.map_values(|q: &Project| *q);
                assert(n =~= o.insert(j as int, *p));
                assert forall|a: int, b: int| 0 <= a < b < n.len() implies !lex_lt(name_bytes(#[trigger] n[b]), name_bytes(#[trigger] n[a])) by {
                    let x = name_bytes(*p);
                    if a < j && b == j {
                        assert(n[a] == o[a]);
                    } else if a == j && b > j {
                        assert(n[b] == o[b - 1]);
                        lemma_lex_transitive(name_bytes(o[b - 1]), x, name_bytes(o[j as int]));
                        lemma_lex_asymmetric(x, name_bytes(o[j as int]));
                    } else if a < j && b > j {
                        assert(n[a] == o[a] && n[b] == o[b - 1]);
                    } else if b < j {
                        assert(n[a] == o[a] && n[b] == o[b]);
                    } else {
                        assert(n[a] == o[a - 1] && n[b] == o[b - 1]);
                    }
                }
                assert(self.projects@.take(k + 1) =~= self.projects@.take(k as int).push(*p));
            }
            k = k + 1;
        }
        proof {
            assert(self.projects@.take(self.projects@.len() as int) =~= self.projects@);
        }
        out
    }

    pub fn count(&self) -> (r: usize)
        ensures
            r == self.spec_projects().len(),
    {
        self.projects.len()
    }
}

impl Default for ProjectRegistry {
    fn default() -> (r: Self)
        ensures
            r.spec_projects().len() == 0,
            r.spec_default() is None,
    {
        ProjectRegistry::new()
    }
}

} // verus!
