use vstd::prelude::*;
use vstd::string::*;

verus! {

/// Whether a supervised service is started again after its process exits.
#[derive(Debug, Clone, Copy, PartialEq, Eq, Structural)]
pub enum RestartPolicy {
    Never,
    OnFailure,
    Always,
}

/// The definition of a service, keyed by its unique name.
#[derive(Debug)]
pub struct ServiceSpec {
    pub name: String,
    /// The argument vector; its first element is the executable.
    pub cmd: Vec<String>,
    /// Environment variables, as (key, value) pairs.
    pub env: Option<Vec<(String, String)>>,
    pub working_dir: Option<String>,
    pub restart: RestartPolicy,
    pub max_restarts: Option<u32>,
    /// An opaque descriptor for a health probe.
    pub health_check: Option<String>,
}

/// The mathematical value of a `ServiceSpec`.
pub struct ServiceSpecView {
    pub name: Seq<char>,
    pub cmd: Seq<Seq<char>>,
    pub env: Option<Seq<(Seq<char>, Seq<char>)>>,
    pub working_dir: Option<Seq<char>>,
    pub restart: RestartPolicy,
    pub max_restarts: Option<u32>,
    pub health_check: Option<Seq<char>>,
}

pub open spec fn strings_view(v: Seq<String>) -> Seq<Seq<char>> {
    v.map_values(|s: String| s@)
}

pub open spec fn pairs_view(v: Seq<(String, String)>) -> Seq<(Seq<char>, Seq<char>)> {
    v.map_values(|p: (String, String)| (p.0@, p.1@))
}

pub open spec fn opt_string_view(o: Option<String>) -> Option<Seq<char>> {
    match o {
        Some(s) => Some(s@),
        None => None,
    }
}

impl View for ServiceSpec {
    type V = ServiceSpecView;

    open spec fn view(&self) -> ServiceSpecView {
        ServiceSpecView {
            name: self.name@,
            cmd: strings_view(self.cmd@),
            env: match self.env {
                Some(e) => Some(pairs_view(e@)),
                None => None,
            },
            working_dir: opt_string_view(self.working_dir),
            restart: self.restart,
            max_restarts: self.max_restarts,
            health_check: opt_string_view(self.health_check),
        }
    }
}

/// A copy of a vector of strings.
pub fn copy_strings(v: &Vec<String>) -> (r: Vec<String>)
    ensures
        r@ == v@,
{
    let mut r: Vec<String> = Vec::new();
    let mut i: usize = 0;
    while i < v.len()
        invariant
            i <= v.len(),
            r@ == v@.subrange(0, i as int),
        decreases v.len() - i,
    {
        r.push(v[i].clone());
        i = i + 1;
    }
    assert(r@ =~= v@);
    r
}

fn copy_pairs(v: &Vec<(String, String)>) -> (r: Vec<(String, String)>)
    ensures
        r@ == v@,
{
    let mut r: Vec<(String, String)> = Vec::new();
    let mut i: usize = 0;
    while i < v.len()
        invariant
            i <= v.len(),
            r@ == v@.subrange(0, i as int),
        decreases v.len() - i,
    {
        let (k, val) = &v[i];
        r.push((k.clone(), val.clone()));
        i = i + 1;
    }
    assert(r@ =~= v@);
    r
}

fn copy_opt_string(o: &Option<String>) -> (r: Option<String>)
    ensures
        r == *o,
{
    match o {
        Some(s) => Some(s.clone()),
        None => None,
    }
}

/// Whether `s` is a UUID written in hyphenated form: 36 characters, hyphens
/// at positions 8, 13, 18 and 23, lowercase hexadecimal digits elsewhere.
pub open spec fn is_hyphenated_uuid(s: Seq<char>) -> bool {
    &&& s.len() == 36
    &&& forall|i: int|
        0 <= i < 36 ==> if i == 8 || i == 13 || i == 18 || i == 23 {
            s[i] == '-'
        } else {
            ('0' <= #[trigger] s[i] <= '9') || ('a' <= s[i] <= 'f')
        }
}

/// Relies on `uuid::Uuid::new_v4`, a random UUID whose version digit is 4,
/// and on its `Display` impl, which writes the hyphenated lowercase form.
#[verifier::external_body]
fn random_uuid() -> (r: String)
    ensures
        is_hyphenated_uuid(r@),
        r@[14] == '4',
{
    uuid::Uuid::new_v4().to_string()
}

impl ServiceSpec {
    /// The identifier made of the name, a hyphen and `suffix`.
    pub fn id_with(&self, suffix: &str) -> (r: String)
        ensures
            r@ == self.name@ + "-"@ + suffix@,
    {
        let mut r = self.name.clone();
        r.append("-");
        r.append(suffix);
        r
    }

    /// A fresh identifier: the name, a hyphen and a random UUID.
    pub fn id(&self) -> (r: String)
        ensures
            exists|u: Seq<char>| is_hyphenated_uuid(u) && u[14] == '4' && r@ == self.name@ + "-"@ + u,
    {
        let u = random_uuid();
        self.id_with(u.as_str())
    }

    /// A field-for-field copy of the definition.
    pub fn duplicate(&self) -> (r: ServiceSpec)
        ensures
            r@ == self@,
    {
        ServiceSpec {
            name: self.name.clone(),
            cmd: copy_strings(&self.cmd),
            env: match &self.env {
                Some(e) => Some(copy_pairs(e)),
                None => None,
            },
            working_dir: copy_opt_string(&self.working_dir),
            restart: self.restart,
            max_restarts: self.max_restarts,
            health_check: copy_opt_string(&self.health_check),
        }
    }
}

} // verus!
