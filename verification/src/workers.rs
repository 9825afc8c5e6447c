//! Workers declared in a spicepod: which kind a declaration names, the
//! model worker it makes, the registry of loaded workers, and what changes
//! when a spicepod is replaced by another.

use vstd::prelude::*;
use crate::keyed::{Keyed, entry_index, entries_get};
use crate::pipeline::{begins_with, begins_with_str};
use crate::text::{chars_of, string_of, sub_chars, find_char, find_in, str_eq};
use crate::user_agent::{clone_opt, clone_pairs, opt_view, pairs_view};
use crate::reciprocal_rank::strs_view;

verus! {

/// A worker as a spicepod declares it. Each parameter value is held as its
/// JSON text.
#[derive(Debug)]
pub struct WorkerConfig {
    pub name: String,
    pub from: String,
    pub role: String,
    pub description: Option<String>,
    pub params: Vec<(String, String)>,
    pub depends_on: Vec<String>,
}

/// The abstract content of a worker declaration or of a model worker.
pub struct WorkerModel {
    pub name: Seq<char>,
    pub from: Seq<char>,
    pub role: Seq<char>,
    pub description: Option<Seq<char>>,
    pub params: Seq<(Seq<char>, Seq<char>)>,
    pub depends_on: Seq<Seq<char>>,
}

impl View for WorkerConfig {
    type V = WorkerModel;

    open spec fn view(&self) -> WorkerModel {
        WorkerModel {
            name: self.name@,
            from: self.from@,
            role: self.role@,
            description: opt_view(self.description),
            params: pairs_view(self.params@),
            depends_on: strs_view(self.depends_on@),
        }
    }
}

/// A worker that serves a model.
#[derive(Debug)]
pub struct ModelWorker {
    /// The source of the model.
    pub from: String,
    pub name: String,
    pub role: String,
    pub description: Option<String>,
    pub params: Vec<(String, String)>,
    pub depends_on: Vec<String>,
}

impl View for ModelWorker {
    type V = WorkerModel;

    open spec fn view(&self) -> WorkerModel {
        WorkerModel {
            name: self.name@,
            from: self.from@,
            role: self.role@,
            description: opt_view(self.description),
            params: pairs_view(self.params@),
            depends_on: strs_view(self.depends_on@),
        }
    }
}

/// The kind of worker a `from` field names: the text before its first `:`,
/// or all of it.
pub open spec fn worker_type_of(from: Seq<char>) -> Seq<char> {
    let i = find_char(from, ':');
    if i >= 0 {
        from.take(i)
    } else {
        from
    }
}

/// The text after the first `:` of a `from` field, if it has one.
pub open spec fn source_of(from: Seq<char>) -> Option<Seq<char>> {
    let i = find_char(from, ':');
    if i >= 0 {
        Some(from.skip(i + 1))
    } else {
        None
    }
}

fn split_from(from: &str) -> (res: (String, Option<String>))
    ensures
        res.0@ == worker_type_of(from@),
        opt_view(res.1) == source_of(from@),
{
    let cs = chars_of(from);
    proof {
        crate::text::lemma_find_char(cs@, ':');
    }
    match find_in(cs.as_slice(), ':') {
        Some(i) => {
            assert(i < cs.len());
            let head = sub_chars(cs.as_slice(), 0, i);
            assert(head@ =~= from@.take(i as int));
            let rest = sub_chars(cs.as_slice(), i + 1, cs.len());
            assert(rest@ =~= from@.skip(i + 1));
            (string_of(head.as_slice()), Some(string_of(rest.as_slice())))
        },
        None => (String::from_str(from), None),
    }
}

/// The kind of worker a `from` field names.
pub fn worker_type(from: &str) -> (res: String)
    ensures
        res@ == worker_type_of(from@),
{
    split_from(from).0
}

fn clone_strs(v: &Vec<String>) -> (res: Vec<String>)
    ensures
        res@ == v@,
{
    let mut out: Vec<String> = Vec::new();
    let mut i: usize = 0;
    while i < v.len()
        invariant
            i <= v.len(),
            out@ == v@.take(i as int),
        decreases v.len() - i,
    {
        out.push(v[i].clone());
        assert(out@ =~= v@.take(i + 1));
        i += 1;
    }
    assert(v@.take(v.len() as int) =~= v@);
    out
}

impl ModelWorker {
    /// A model worker with no description, parameters or dependencies.
    pub fn new(from: String, name: String, role: String) -> (res: Self)
        ensures
            res@ == (WorkerModel {
                name: name@,
                from: from@,
                role: role@,
                description: None,
                params: Seq::empty(),
                depends_on: Seq::empty(),
            }),
    {
        let res = ModelWorker {
            from,
            name,
            role,
            description: None,
            params: Vec::new(),
            depends_on: Vec::new(),
        };
        assert(res@.depends_on =~= Seq::<Seq<char>>::empty());
        assert(res@.params =~= Seq::<(Seq<char>, Seq<char>)>::empty());
        res
    }

    pub fn with_description(self, description: String) -> (res: Self)
        ensures
            res@ == (WorkerModel { description: Some(description@), ..self@ }),
    {
        ModelWorker { description: Some(description), ..self }
    }

    pub fn with_params(self, params: Vec<(String, String)>) -> (res: Self)
        ensures
            res@ == (WorkerModel { params: pairs_view(params@), ..self@ }),
    {
        ModelWorker { params, ..self }
    }

    pub fn with_depends_on(self, depends_on: Vec<String>) -> (res: Self)
        ensures
            res@ == (WorkerModel { depends_on: strs_view(depends_on@), ..self@ }),
    {
        ModelWorker { depends_on, ..self }
    }

    /// The model worker of a declaration: a `from` of the form
    /// `model:<source>` or `models:<source>` gives the source; any other
    /// `from` is kept whole.
    pub fn from_config(config: &WorkerConfig) -> (res: Self)
        ensures
            res@ == (WorkerModel {
                from: if begins_with(config.from@, "model:"@) || begins_with(config.from@, "models:"@) {
                    source_of(config.from@)->0
                } else {
                    config.from@
                },
                ..config@
            }),
    {
        let cs = chars_of(config.from.as_str());
        let prefixed = begins_with_str(cs.as_slice(), "model:") || begins_with_str(
            cs.as_slice(),
            "models:",
        );
        let (_, source) = split_from(config.from.as_str());
        let from = if prefixed {
            proof {
                reveal_strlit("model:");
                reveal_strlit("models:");
                if begins_with(config.from@, "model:"@) {
                    assert(config.from@.take(6)[5] == ':');
                    assert(config.from@[5] == ':');
                } else {
                    assert(config.from@.take(7)[6] == ':');
                    assert(config.from@[6] == ':');
                }
                crate::text::lemma_find_char(config.from@, ':');
            }
            match source {
                Some(s) => s,
                None => config.from.clone(),
            }
        } else {
            config.from.clone()
        };
        ModelWorker {
            from,
            name: config.name.clone(),
            role: config.role.clone(),
            description: clone_opt(&config.description),
            params: clone_pairs(&config.params),
            depends_on: clone_strs(&config.depends_on),
        }
    }
}

/// Why a worker could not be made from its declaration.
#[derive(Debug, Clone, PartialEq, Eq)]
pub enum WorkerError {
    UnsupportedWorkerType { worker_type: String },
    InvalidWorkerConfig { message: String },
}

impl WorkerError {
    /// The error message.
    pub fn to_string(&self) -> (res: String)
        ensures
            res@ == match self {
                WorkerError::UnsupportedWorkerType { worker_type } => "Unsupported worker type: "@
                    + worker_type@,
                WorkerError::InvalidWorkerConfig { message } => "Invalid worker configuration: "@
                    + message@,
            },
    {
        match self {
            WorkerError::UnsupportedWorkerType { worker_type } => {
                let mut s = String::from_str("Unsupported worker type: ");
                s.append(worker_type.as_str());
                s
            },
            WorkerError::InvalidWorkerConfig { message } => {
                let mut s = String::from_str("Invalid worker configuration: ");
                s.append(message.as_str());
                s
            },
        }
    }
}

/// `Model source not specified in 'from' field. Format should be 'models:<model-source>'`
pub const MISSING_MODEL_SOURCE: &'static str =
    "Model source not specified in 'from' field. Format should be 'models:<model-source>'";

/// `Worker type not specified in 'from' field`
pub const MISSING_WORKER_TYPE: &'static str = "Worker type not specified in 'from' field";

/// Makes the worker a declaration names: `model` and `models` make a model
/// worker of the source after the first `:` (one is needed), with the
/// declaration's name, role, description (empty when it has none),
/// parameters and dependencies. An empty kind, or any other kind, is an
/// error.
pub fn load_worker(config: &WorkerConfig) -> (res: Result<ModelWorker, WorkerError>)
    ensures
        ({
            let t = worker_type_of(config.from@);
            if t == "model"@ || t == "models"@ {
                match source_of(config.from@) {
                    Some(src) => res matches Ok(w) && w@ == (WorkerModel {
                        from: src,
                        description: Some(
                            match config@.description {
                                Some(d) => d,
                                None => Seq::empty(),
                            },
                        ),
                        ..config@
                    }),
                    None => res matches Err(WorkerError::InvalidWorkerConfig { message })
                        && message@ == MISSING_MODEL_SOURCE@,
                }
            } else if t.len() == 0 {
                res matches Err(WorkerError::InvalidWorkerConfig { message }) && message@
                    == MISSING_WORKER_TYPE@
            } else {
                res matches Err(WorkerError::UnsupportedWorkerType { worker_type }) && worker_type@
                    == t
            }
        }),
{
    let (t, source) = split_from(config.from.as_str());
    proof {
        reveal_strlit("");
        assert(t@.len() == 0 ==> t@ =~= ""@);
    }
    if str_eq(t.as_str(), "model") || str_eq(t.as_str(), "models") {
        match source {
            Some(src) => {
                let description = match &config.description {
                    Some(d) => d.clone(),
                    None => String::new(),
                };
                let w = ModelWorker::new(src, config.name.clone(), config.role.clone()).with_description(
                    description,
                ).with_params(clone_pairs(&config.params)).with_depends_on(clone_strs(&config.depends_on));
                Ok(w)
            },
            None => Err(WorkerError::InvalidWorkerConfig { message: String::from_str(MISSING_MODEL_SOURCE) }),
        }
    } else if str_eq(t.as_str(), "") {
        proof {
            reveal_strlit("");
        }
        Err(WorkerError::InvalidWorkerConfig { message: String::from_str(MISSING_WORKER_TYPE) })
    } else {
        Err(WorkerError::UnsupportedWorkerType { worker_type: t })
    }
}

/// A loaded worker.
pub trait SpiceWorker {
    /// The name the registry keys the worker by.
    spec fn worker_name(&self) -> Seq<char>;

    fn name(&self) -> (r: String)
        ensures
            r@ == self.worker_name(),
    ;

    fn from(&self) -> String;

    fn role(&self) -> String;

    fn description(&self) -> Option<String>;

    fn params(&self) -> &Vec<(String, String)>;

    fn depends_on(&self) -> &Vec<String>;
}

impl SpiceWorker for ModelWorker {
    open spec fn worker_name(&self) -> Seq<char> {
        self.name@
    }

    fn name(&self) -> (r: String) {
        self.name.clone()
    }

    fn from(&self) -> (r: String)
        ensures
            r@ == self.from@,
    {
        self.from.clone()
    }

    fn role(&self) -> (r: String)
        ensures
            r@ == self.role@,
    {
        self.role.clone()
    }

    fn description(&self) -> (r: Option<String>)
        ensures
            opt_view(r) == opt_view(self.description),
    {
        clone_opt(&self.description)
    }

    fn params(&self) -> (r: &Vec<(String, String)>)
        ensures
            r == &self.params,
    {
        &self.params
    }

    fn depends_on(&self) -> (r: &Vec<String>)
        ensures
            r == &self.depends_on,
    {
        &self.depends_on
    }
}

/// Loaded workers by name.
pub struct WorkerRegistry<W: SpiceWorker> {
    workers: Keyed<W>,
}

impl<W: SpiceWorker> WorkerRegistry<W> {
    /// Names are unique, and each worker sits under its own name.
    #[verifier::type_invariant]
    closed spec fn wf(&self) -> bool {
        &&& self.workers.keys().no_duplicates()
        &&& forall|i: int|
            0 <= i < self.workers.entries@.len() ==> (#[trigger] self.workers.entries@[i]).0@
                == self.workers.entries@[i].1.worker_name()
    }

    /// The worker registered under a name.
    pub closed spec fn worker(&self, name: Seq<char>) -> Option<W> {
        entries_get(self.workers.entries@, name)
    }

    /// The names registered, in order of registration.
    pub closed spec fn names(&self) -> Seq<Seq<char>> {
        self.workers.keys()
    }

    /// An empty registry.
    pub fn new() -> (res: Self)
        ensures
            res.names().len() == 0,
            forall|n: Seq<char>| res.worker(n) is None,
    {
        let res = WorkerRegistry { workers: Keyed::new() };
        assert(res.workers.keys() =~= Seq::<Seq<char>>::empty());
        res
    }

    /// Registers a worker under its name, replacing a worker of that name.
    pub fn add(&mut self, worker: W)
        ensures
            final(self).worker(worker.worker_name()) == Some(worker),
            forall|n: Seq<char>| n != worker.worker_name() ==> final(self).worker(n) == old(self).worker(n),
    {
        proof {
            use_type_invariant(&*self);
        }
        let mut workers: Keyed<W> = Keyed::new();
        std::mem::swap(&mut workers, &mut self.workers);
        let name = worker.name();
        let ghost before = workers.entries@;
        let ghost w = worker;
        workers.insert(name, worker);
        proof {
            assert forall|n: Seq<char>| n != w.worker_name() implies entries_get(workers.entries@, n)
                == entries_get(before, n) by {
                crate::keyed::lemma_keyed_insert(before, name, w, n);
            }
            crate::keyed::lemma_keyed_insert(before, name, w, name@);
            let i = entry_index(crate::keyed::entry_keys(before), name@);
            crate::keyed::lemma_entry_index(crate::keyed::entry_keys(before), name@);
            assert forall|j: int| 0 <= j < workers.entries@.len() implies (
            #[trigger] workers.entries@[j]).0@ == workers.entries@[j].1.worker_name() by {
                if i >= 0 {
                    if j != i {
                        assert(workers.entries@[j] == before[j]);
                    }
                } else if j < before.len() {
                    assert(workers.entries@[j] == before[j]);
                }
            }
        }
        self.workers = workers;
    }

    /// The worker registered under `name`.
    pub fn get(&self, name: &str) -> (res: Option<&W>)
        ensures
            self.worker(name@) is None ==> res is None,
            self.worker(name@) matches Some(w) ==> res matches Some(r) && *r == w,
    {
        self.workers.get(name)
    }

    /// Every registered worker with its name, in order of registration.
    pub fn all(&self) -> (res: Vec<(&String, &W)>)
        ensures
            res@.len() == self.names().len(),
            forall|i: int|
                0 <= i < res@.len() ==> (#[trigger] res@[i]).0@ == self.names()[i] && self.worker(
                    self.names()[i],
                ) == Some(*res@[i].1),
    {
        proof {
            use_type_invariant(self);
        }
        let mut out: Vec<(&String, &W)> = Vec::new();
        let mut i: usize = 0;
        while i < self.workers.entries.len()
            invariant
                i <= self.workers.entries.len(),
                out@.len() == i,
                forall|j: int|
                    0 <= j < i ==> (#[trigger] out@[j]).0 == &self.workers.entries@[j].0 && out@[j].1
                        == &self.workers.entries@[j].1,
            decreases self.workers.entries.len() - i,
        {
            let e = &self.workers.entries[i];
            out.push((&e.0, &e.1));
            i += 1;
        }
        proof {
            assert forall|j: int| 0 <= j < out@.len() implies (#[trigger] out@[j]).0@ == self.names()[j]
                && self.worker(self.names()[j]) == Some(*out@[j].1) by {
                crate::keyed::lemma_entry_index_unique(self.workers.keys(), j);
            }
        }
        out
    }

    /// Takes out the worker registered under `name`.
    pub fn remove(&mut self, name: &str) -> (res: Option<W>)
        ensures
            res == old(self).worker(name@),
            final(self).worker(name@) is None,
            forall|n: Seq<char>| n != name@ ==> final(self).worker(n) == old(self).worker(n),
    {
        proof {
            use_type_invariant(&*self);
        }
        let mut workers: Keyed<W> = Keyed::new();
        std::mem::swap(&mut workers, &mut self.workers);
        let ghost before = workers.entries@;
        let res = workers.remove(name);
        proof {
            assert forall|n: Seq<char>| n != name@ implies entries_get(workers.entries@, n) == entries_get(
                before,
                n,
            ) by {
                crate::keyed::lemma_keyed_remove(before, name@, n);
            }
            crate::keyed::lemma_keyed_remove(before, name@, name@);
            let i = entry_index(crate::keyed::entry_keys(before), name@);
            crate::keyed::lemma_entry_index(crate::keyed::entry_keys(before), name@);
            assert forall|j: int| 0 <= j < workers.entries@.len() implies (
            #[trigger] workers.entries@[j]).0@ == workers.entries@[j].1.worker_name() by {
                if i >= 0 {
                    let j2 = if j < i { j } else { j + 1 };
                    assert(workers.entries@[j] == before[j2]);
                }
            }
        }
        self.workers = workers;
        res
    }
}

impl<W: SpiceWorker> Default for WorkerRegistry<W> {
    fn default() -> (res: Self)
        ensures
            res.names().len() == 0,
            forall|n: Seq<char>| res.worker(n) is None,
    {
        WorkerRegistry::new()
    }
}

/// Two declarations that describe the same worker: equal fields, with the
/// parameters compared as a map (in any order).
pub open spec fn same_worker(a: WorkerModel, b: WorkerModel) -> bool {
    &&& a.name == b.name
    &&& a.from == b.from
    &&& a.role == b.role
    &&& a.description == b.description
    &&& forall|p: (Seq<char>, Seq<char>)| a.params.contains(p) <==> b.params.contains(p)
    &&& a.depends_on == b.depends_on
}

/// A change to the loaded workers when a spicepod is replaced.
#[derive(Debug, Clone, Copy, PartialEq, Eq, Structural)]
pub enum WorkerChange {
    /// Load the new worker at this index: no current worker has its name.
    Load(usize),
    /// Reload the new worker at this index: the current worker of its name
    /// is declared differently.
    Update(usize),
    /// Unload the current worker at this index: no new worker has its name.
    Remove(usize),
}

/// The abstract content of declarations.
pub open spec fn configs_view(v: Seq<WorkerConfig>) -> Seq<WorkerModel> {
    v.map_values(|c: WorkerConfig| c@)
}

/// The names of declarations.
pub open spec fn worker_names(s: Seq<WorkerModel>) -> Seq<Seq<char>> {
    s.map_values(|w: WorkerModel| w.name)
}

/// The loads and updates, for the new declarations in order.
pub open spec fn new_worker_changes(cur: Seq<WorkerModel>, new: Seq<WorkerModel>) -> Seq<WorkerChange>
    decreases new.len(),
{
    if new.len() == 0 {
        Seq::empty()
    } else {
        let prev = new_worker_changes(cur, new.drop_last());
        let i = new.len() - 1;
        let j = entry_index(worker_names(cur), new.last().name);
        if j >= 0 {
            if same_worker(cur[j], new.last()) {
                prev
            } else {
                prev.push(WorkerChange::Update(i as usize))
            }
        } else {
            prev.push(WorkerChange::Load(i as usize))
        }
    }
}

/// The removals, for the current declarations in order.
pub open spec fn removed_worker_changes(cur: Seq<WorkerModel>, new: Seq<WorkerModel>) -> Seq<WorkerChange>
    decreases cur.len(),
{
    if cur.len() == 0 {
        Seq::empty()
    } else {
        let prev = removed_worker_changes(cur.drop_last(), new);
        if entry_index(worker_names(new), cur.last().name) < 0 {
            prev.push(WorkerChange::Remove((cur.len() - 1) as usize))
        } else {
            prev
        }
    }
}

/// The changes that take the loaded workers from `cur` to `new`: loads and
/// updates first, then removals.
pub open spec fn worker_changes(cur: Seq<WorkerModel>, new: Seq<WorkerModel>) -> Seq<WorkerChange> {
    new_worker_changes(cur, new) + removed_worker_changes(cur, new)
}

fn strs_equal(a: &Vec<String>, b: &Vec<String>) -> (r: bool)
    ensures
        r == (strs_view(a@) == strs_view(b@)),
{
    if a.len() != b.len() {
        assert(strs_view(a@).len() != strs_view(b@).len());
        return false;
    }
    let mut i: usize = 0;
    while i < a.len()
        invariant
            i <= a.len() == b.len(),
            forall|j: int| 0 <= j < i ==> a@[j]@ == b@[j]@,
        decreases a.len() - i,
    {
        if !str_eq(a[i].as_str(), b[i].as_str()) {
            assert(strs_view(a@)[i as int] != strs_view(b@)[i as int]);
            return false;
        }
        i += 1;
    }
    assert(strs_view(a@) =~= strs_view(b@));
    true
}

fn opt_equal(a: &Option<String>, b: &Option<String>) -> (r: bool)
    ensures
        r == (opt_view(*a) == opt_view(*b)),
{
    match (a, b) {
        (Some(x), Some(y)) => str_eq(x.as_str(), y.as_str()),
        (None, None) => true,
        _ => false,
    }
}

fn has_pair(v: &Vec<(String, String)>, k: &String, val: &String) -> (r: bool)
    ensures
        r == pairs_view(v@).contains((k@, val@)),
{
    let mut i: usize = 0;
    while i < v.len()
        invariant
            i <= v.len(),
            forall|j: int| 0 <= j < i ==> pairs_view(v@)[j] != (k@, val@),
        decreases v.len() - i,
    {
        assert(pairs_view(v@)[i as int] == (v@[i as int].0@, v@[i as int].1@));
        if str_eq(v[i].0.as_str(), k.as_str()) && str_eq(v[i].1.as_str(), val.as_str()) {
            return true;
        }
        i += 1;
    }
    false
}

fn pairs_within(a: &Vec<(String, String)>, b: &Vec<(String, String)>) -> (r: bool)
    ensures
        r == forall|p: (Seq<char>, Seq<char>)| pairs_view(a@).contains(p) ==> pairs_view(b@).contains(p),
{
    let mut i: usize = 0;
    while i < a.len()
        invariant
            i <= a.len(),
            forall|j: int| 0 <= j < i ==> pairs_view(b@).contains(#[trigger] pairs_view(a@)[j]),
        decreases a.len() - i,
    {
        assert(pairs_view(a@)[i as int] == (a@[i as int].0@, a@[i as int].1@));
        if !has_pair(b, &a[i].0, &a[i].1) {
            return false;
        }
        i += 1;
    }
    true
}

/// Whether two declarations describe the same worker.
pub fn same_config(a: &WorkerConfig, b: &WorkerConfig) -> (r: bool)
    ensures
        r == same_worker(a@, b@),
{
    let n = str_eq(a.name.as_str(), b.name.as_str());
    let f = str_eq(a.from.as_str(), b.from.as_str());
    let ro = str_eq(a.role.as_str(), b.role.as_str());
    let d = opt_equal(&a.description, &b.description);
    let dep = strs_equal(&a.depends_on, &b.depends_on);
    assert(n == (a@.name == b@.name));
    assert(f == (a@.from == b@.from));
    assert(ro == (a@.role == b@.role));
    assert(d == (a@.description == b@.description));
    assert(dep == (a@.depends_on == b@.depends_on));
    let fields = n && f && ro && d && dep;
    let ab = pairs_within(&a.params, &b.params);
    let ba = pairs_within(&b.params, &a.params);
    let ghost pa = pairs_view(a.params@);
    let ghost pb = pairs_view(b.params@);
    assert((ab && ba) == (forall|p: (Seq<char>, Seq<char>)| pa.contains(p) <==> pb.contains(p))) by {
        if !ab {
            let p = choose|p: (Seq<char>, Seq<char>)| !(pa.contains(p) ==> pb.contains(p));
            assert(pa.contains(p) && !pb.contains(p));
        } else if !ba {
            let p = choose|p: (Seq<char>, Seq<char>)| !(pb.contains(p) ==> pa.contains(p));
            assert(pb.contains(p) && !pa.contains(p));
        }
    }
    assert(a@.params == pa && b@.params == pb);
    fields && ab && ba
}

fn find_named(v: &Vec<WorkerConfig>, name: &String) -> (r: Option<usize>)
    ensures
        match r {
            Some(j) => entry_index(worker_names(configs_view(v@)), name@) == j && j < v.len(),
            None => entry_index(worker_names(configs_view(v@)), name@) == -1,
        },
{
    let ghost ns = worker_names(configs_view(v@));
    proof {
        crate::keyed::lemma_entry_index(ns, name@);
    }
    let mut i: usize = 0;
    while i < v.len()
        invariant
            i <= v.len(),
            ns == worker_names(configs_view(v@)),
            ns.len() == v.len(),
            forall|j: int| 0 <= j < i ==> ns[j] != name@,
            -1 <= entry_index(ns, name@) < ns.len(),
            entry_index(ns, name@) >= 0 ==> ns[entry_index(ns, name@)] == name@,
            forall|j: int|
                0 <= j < ns.len() && (entry_index(ns, name@) < 0 || j < entry_index(ns, name@)) ==> ns[j]
                    != name@,
        decreases v.len() - i,
    {
        assert(ns[i as int] == v@[i as int].name@);
        if str_eq(v[i].name.as_str(), name.as_str()) {
            return Some(i);
        }
        i += 1;
    }
    None
}

/// The changes that take the loaded workers of the current spicepod to
/// those of the new one: for each new worker in order, a load when no
/// current worker has its name, an update when the current worker of its
/// name (the first) is declared differently; then, for each current worker
/// in order, a removal when no new worker has its name.
pub fn worker_diff(current: &Vec<WorkerConfig>, new: &Vec<WorkerConfig>) -> (res: Vec<WorkerChange>)
    ensures
        res@ == worker_changes(configs_view(current@), configs_view(new@)),
{
    let ghost cv = configs_view(current@);
    let ghost nv = configs_view(new@);
    let mut res: Vec<WorkerChange> = Vec::new();
    let mut i: usize = 0;
    while i < new.len()
        invariant
            i <= new.len(),
            cv == configs_view(current@),
            nv == configs_view(new@),
            res@ == new_worker_changes(cv, nv.take(i as int)),
        decreases new.len() - i,
    {
        assert(nv.take(i + 1).drop_last() =~= nv.take(i as int));
        assert(nv.take(i + 1).last() == new@[i as int]@);
        match find_named(current, &new[i].name) {
            Some(j) => {
                if !same_config(&current[j], &new[i]) {
                    res.push(WorkerChange::Update(i));
                }
            },
            None => {
                res.push(WorkerChange::Load(i));
            },
        }
        i += 1;
    }
    assert(nv.take(new.len() as int) =~= nv);
    let ghost loads = res@;
    let mut j: usize = 0;
    while j < current.len()
        invariant
            j <= current.len(),
            cv == configs_view(current@),
            nv == configs_view(new@),
            loads == new_worker_changes(cv, nv),
            res@ == loads + removed_worker_changes(cv.take(j as int), nv),
        decreases current.len() - j,
    {
        assert(cv.take(j + 1).drop_last() =~= cv.take(j as int));
        assert(cv.take(j + 1).last() == current@[j as int]@);
        if find_named(new, &current[j].name).is_none() {
            let ghost prev = res@;
            res.push(WorkerChange::Remove(j));
            assert(res@ =~= loads + removed_worker_changes(cv.take(j + 1), nv)) by {
                assert(prev =~= loads + removed_worker_changes(cv.take(j as int), nv));
            }
        }
        j += 1;
    }
    assert(cv.take(current.len() as int) =~= cv);
    res
}

/// The names of the loaded workers after applying `changes` to the names
/// `loaded`: a load or update leaves the new worker's name loaded, a
/// removal unloads the current worker's name.
pub open spec fn names_after(
    loaded: Set<Seq<char>>,
    cur: Seq<WorkerModel>,
    new: Seq<WorkerModel>,
    changes: Seq<WorkerChange>,
) -> Set<Seq<char>>
    decreases changes.len(),
{
    if changes.len() == 0 {
        loaded
    } else {
        let s = names_after(loaded, cur, new, changes.drop_last());
        match changes.last() {
            WorkerChange::Load(i) => s.insert(new[i as int].name),
            WorkerChange::Update(i) => s.insert(new[i as int].name),
            WorkerChange::Remove(j) => s.remove(cur[j as int].name),
        }
    }
}

proof fn lemma_names_after_concat(
    loaded: Set<Seq<char>>,
    cur: Seq<WorkerModel>,
    new: Seq<WorkerModel>,
    a: Seq<WorkerChange>,
    b: Seq<WorkerChange>,
)
    ensures
        names_after(loaded, cur, new, a + b) == names_after(names_after(loaded, cur, new, a), cur, new, b),
    decreases b.len(),
{
    if b.len() == 0 {
        assert(a + b =~= a);
    } else {
        assert((a + b).drop_last() =~= a + b.drop_last());
        assert((a + b).last() == b.last());
        lemma_names_after_concat(loaded, cur, new, a, b.drop_last());
    }
}

proof fn lemma_loads(cur: Seq<WorkerModel>, new: Seq<WorkerModel>, k: int)
    requires
        0 <= k <= new.len(),
        new.len() <= usize::MAX,
    ensures
        forall|x: Seq<char>|
            #![trigger names_after(worker_names(cur).to_set(), cur, new, new_worker_changes(cur, new.take(k))).contains(x)]
            names_after(worker_names(cur).to_set(), cur, new, new_worker_changes(cur, new.take(k))).contains(x)
                <==> (worker_names(cur).contains(x) || worker_names(new.take(k)).contains(x)),
    decreases k,
{
    let c = worker_names(cur).to_set();
    if k == 0 {
        assert(new_worker_changes(cur, new.take(0)) =~= Seq::<WorkerChange>::empty());
        assert forall|x: Seq<char>| !worker_names(new.take(0)).contains(x) by {}
    } else {
        lemma_loads(cur, new, k - 1);
        let t = new.take(k);
        assert(t.drop_last() =~= new.take(k - 1));
        assert(t.last() == new[k - 1]);
        let prev = new_worker_changes(cur, new.take(k - 1));
        let before = names_after(c, cur, new, prev);
        let nm = new[k - 1].name;
        let j = entry_index(worker_names(cur), nm);
        crate::keyed::lemma_entry_index(worker_names(cur), nm);
        let nt = worker_names(t);
        let np = worker_names(new.take(k - 1));
        assert(nt =~= np.push(nm));
        assert forall|x: Seq<char>| nt.contains(x) <==> (np.contains(x) || x == nm) by {
            if np.contains(x) {
                let m = choose|m: int| 0 <= m < np.len() && np[m] == x;
                assert(nt[m] == x);
            }
            if x == nm {
                assert(nt[np.len() as int] == nm);
            }
            if nt.contains(x) {
                let m = choose|m: int| 0 <= m < nt.len() && nt[m] == x;
                if m < np.len() {
                    assert(np[m] == x);
                }
            }
        }
        let after = names_after(c, cur, new, new_worker_changes(cur, t));
        if j >= 0 {
            assert(worker_names(cur)[j] == nm);
            assert(worker_names(cur).contains(nm));
        }
        if j >= 0 && same_worker(cur[j], new[k - 1]) {
            assert(new_worker_changes(cur, t) == prev);
            assert forall|x: Seq<char>| after.contains(x) <==> (worker_names(cur).contains(x) || nt.contains(x)) by {
                assert(before.contains(x) <==> (worker_names(cur).contains(x) || np.contains(x)));
            }
        } else {
            let ch = if j >= 0 {
                WorkerChange::Update((k - 1) as usize)
            } else {
                WorkerChange::Load((k - 1) as usize)
            };
            assert(new_worker_changes(cur, t) == prev.push(ch));
            assert(prev.push(ch).drop_last() =~= prev);
            assert(prev.push(ch).last() == ch);
            assert(after == before.insert(nm));
            assert forall|x: Seq<char>| after.contains(x) <==> (worker_names(cur).contains(x) || nt.contains(x)) by {
                assert(before.contains(x) <==> (worker_names(cur).contains(x) || np.contains(x)));
            }
        }
    }
}

proof fn lemma_removals(cur: Seq<WorkerModel>, new: Seq<WorkerModel>, start: Set<Seq<char>>, m: int)
    requires
        0 <= m <= cur.len(),
        cur.len() <= usize::MAX,
        forall|x: Seq<char>| #[trigger] start.contains(x) <==> (worker_names(cur).contains(x) || worker_names(new).contains(x)),
    ensures
        forall|x: Seq<char>|
            #![trigger names_after(start, cur, new, removed_worker_changes(cur.take(m), new)).contains(x)]
            names_after(start, cur, new, removed_worker_changes(cur.take(m), new)).contains(x)
                <==> (worker_names(new).contains(x) || (worker_names(cur).contains(x)
                && !worker_names(cur.take(m)).contains(x))),
    decreases m,
{
    if m == 0 {
        assert(removed_worker_changes(cur.take(0), new) =~= Seq::<WorkerChange>::empty());
        assert forall|x: Seq<char>| !worker_names(cur.take(0)).contains(x) by {}
    } else {
        lemma_removals(cur, new, start, m - 1);
        let t = cur.take(m);
        assert(t.drop_last() =~= cur.take(m - 1));
        assert(t.last() == cur[m - 1]);
        let prev = removed_worker_changes(cur.take(m - 1), new);
        let before = names_after(start, cur, new, prev);
        let nm = cur[m - 1].name;
        let nt = worker_names(t);
        let np = worker_names(cur.take(m - 1));
        assert(nt =~= np.push(nm));
        assert forall|x: Seq<char>| nt.contains(x) <==> (np.contains(x) || x == nm) by {
            if np.contains(x) {
                let q = choose|q: int| 0 <= q < np.len() && np[q] == x;
                assert(nt[q] == x);
            }
            if x == nm {
                assert(nt[np.len() as int] == nm);
            }
            if nt.contains(x) {
                let q = choose|q: int| 0 <= q < nt.len() && nt[q] == x;
                if q < np.len() {
                    assert(np[q] == x);
                }
            }
        }
        assert(worker_names(cur)[m - 1] == nm);
        assert(worker_names(cur).contains(nm));
        crate::keyed::lemma_entry_index(worker_names(new), nm);
        let after = names_after(start, cur, new, removed_worker_changes(t, new));
        if entry_index(worker_names(new), nm) < 0 {
            let ch = WorkerChange::Remove((m - 1) as usize);
            assert(removed_worker_changes(t, new) == prev.push(ch));
            assert(prev.push(ch).drop_last() =~= prev);
            assert(prev.push(ch).last() == ch);
            assert(after == before.remove(nm));
            assert(!worker_names(new).contains(nm));
        } else {
            assert(removed_worker_changes(t, new) == prev);
            assert(worker_names(new)[entry_index(worker_names(new), nm)] == nm);
            assert(worker_names(new).contains(nm));
        }
        assert forall|x: Seq<char>| after.contains(x) <==> (worker_names(new).contains(x) || (
        worker_names(cur).contains(x) && !nt.contains(x))) by {
            assert(before.contains(x) <==> (worker_names(new).contains(x) || (worker_names(cur).contains(x)
                && !np.contains(x))));
        }
    }
}

/// Applying the changes of a spicepod replacement to the names of the
/// current workers leaves loaded exactly the names of the new workers.
pub proof fn lemma_worker_changes_complete(cur: Seq<WorkerModel>, new: Seq<WorkerModel>)
    requires
        cur.len() <= usize::MAX,
        new.len() <= usize::MAX,
    ensures
        forall|x: Seq<char>|
            names_after(worker_names(cur).to_set(), cur, new, worker_changes(cur, new)).contains(x)
                <==> worker_names(new).contains(x),
{
    let c = worker_names(cur).to_set();
    let loads = new_worker_changes(cur, new);
    let rems = removed_worker_changes(cur, new);
    lemma_loads(cur, new, new.len() as int);
    assert(new.take(new.len() as int) =~= new);
    let mid = names_after(c, cur, new, loads);
    lemma_names_after_concat(c, cur, new, loads, rems);
    lemma_removals(cur, new, mid, cur.len() as int);
    assert(cur.take(cur.len() as int) =~= cur);
}

proof fn lemma_new_changes_indices(cur: Seq<WorkerModel>, new: Seq<WorkerModel>)
    requires
        new.len() <= usize::MAX,
    ensures
        forall|k: int|
            0 <= k < new_worker_changes(cur, new).len() ==> match #[trigger] new_worker_changes(cur, new)[k] {
                WorkerChange::Load(x) => x < new.len(),
                WorkerChange::Update(x) => x < new.len(),
                WorkerChange::Remove(_) => false,
            },
    decreases new.len(),
{
    if new.len() > 0 {
        lemma_new_changes_indices(cur, new.drop_last());
    }
}

proof fn lemma_removed_changes_are_removals(cur: Seq<WorkerModel>, new: Seq<WorkerModel>)
    ensures
        forall|k: int|
            0 <= k < removed_worker_changes(cur, new).len() ==> #[trigger] removed_worker_changes(cur, new)[k] is Remove,
    decreases cur.len(),
{
    if cur.len() > 0 {
        lemma_removed_changes_are_removals(cur.drop_last(), new);
    }
}

proof fn lemma_new_change_at(cur: Seq<WorkerModel>, new: Seq<WorkerModel>, i: int)
    requires
        new.len() <= usize::MAX,
        0 <= i < new.len(),
    ensures
        new_worker_changes(cur, new).contains(WorkerChange::Update(i as usize)) <==> ({
            let j = entry_index(worker_names(cur), new[i].name);
            j >= 0 && !same_worker(cur[j], new[i])
        }),
        new_worker_changes(cur, new).contains(WorkerChange::Load(i as usize)) <==> entry_index(
            worker_names(cur),
            new[i].name,
        ) < 0,
    decreases new.len(),
{
    let prev = new_worker_changes(cur, new.drop_last());
    let n = new.len() - 1;
    let all = new_worker_changes(cur, new);
    lemma_new_changes_indices(cur, new.drop_last());
    if i == n {
        assert(!prev.contains(WorkerChange::Update(i as usize))) by {
            if prev.contains(WorkerChange::Update(i as usize)) {
                let k = choose|k: int| 0 <= k < prev.len() && prev[k] == WorkerChange::Update(i as usize);
                assert(match prev[k] {
                    WorkerChange::Load(x) => x < n,
                    WorkerChange::Update(x) => x < n,
                    WorkerChange::Remove(_) => false,
                });
            }
        }
        assert(!prev.contains(WorkerChange::Load(i as usize))) by {
            if prev.contains(WorkerChange::Load(i as usize)) {
                let k = choose|k: int| 0 <= k < prev.len() && prev[k] == WorkerChange::Load(i as usize);
                assert(match prev[k] {
                    WorkerChange::Load(x) => x < n,
                    WorkerChange::Update(x) => x < n,
                    WorkerChange::Remove(_) => false,
                });
            }
        }
        let j = entry_index(worker_names(cur), new.last().name);
        if j >= 0 {
            if same_worker(cur[j], new.last()) {
                assert(all == prev);
            } else {
                assert(all == prev.push(WorkerChange::Update(n as usize)));
                assert(all[prev.len() as int] == WorkerChange::Update(n as usize));
                assert(forall|c: WorkerChange| all.contains(c) ==> prev.contains(c) || c == WorkerChange::Update(n as usize));
            }
        } else {
            assert(all == prev.push(WorkerChange::Load(n as usize)));
            assert(all[prev.len() as int] == WorkerChange::Load(n as usize));
            assert(forall|c: WorkerChange| all.contains(c) ==> prev.contains(c) || c == WorkerChange::Load(n as usize));
        }
    } else {
        lemma_new_change_at(cur, new.drop_last(), i);
        assert(new.drop_last()[i] == new[i]);
        let j = entry_index(worker_names(cur), new.last().name);
        let extra = if j >= 0 {
            WorkerChange::Update(n as usize)
        } else {
            WorkerChange::Load(n as usize)
        };
        assert(extra != WorkerChange::Update(i as usize) && extra != WorkerChange::Load(i as usize));
        if j >= 0 && same_worker(cur[j], new.last()) {
            assert(all == prev);
        } else {
            assert(all == prev.push(extra));
            assert(all[prev.len() as int] == extra);
            assert(forall|c: WorkerChange| all.contains(c) ==> prev.contains(c) || c == extra);
            assert(forall|c: WorkerChange| prev.contains(c) ==> all.contains(c)) by {
                assert forall|c: WorkerChange| prev.contains(c) implies all.contains(c) by {
                    let k = choose|k: int| 0 <= k < prev.len() && prev[k] == c;
                    assert(all[k] == c);
                }
            }
        }
    }
}

/// Two declarations are the same worker exactly when they agree in every
/// declared field: name, source, role, description, dependencies and the
/// set of parameters. In particular declarations with different
/// descriptions are different workers.
pub proof fn lemma_same_worker_fields(a: WorkerModel, b: WorkerModel)
    ensures
        same_worker(a, b) <==> (a.name == b.name && a.from == b.from && a.role == b.role && a.description
            == b.description && a.depends_on == b.depends_on && forall|p: (Seq<char>, Seq<char>)|
            a.params.contains(p) == b.params.contains(p)),
        a.description != b.description ==> !same_worker(a, b),
{
}

/// When a spicepod is replaced, each new worker is handled by what its
/// declaration says against the current one of its name: a worker with no
/// current namesake is loaded; one whose current namesake is declared
/// differently in any field (source, role, description, dependencies or
/// the set of parameters) is reloaded; one declared exactly as before is
/// neither loaded nor reloaded.
pub proof fn lemma_worker_changes_follow_declarations(cur: Seq<WorkerModel>, new: Seq<WorkerModel>, i: int)
    requires
        new.len() <= usize::MAX,
        0 <= i < new.len(),
    ensures
        ({
            let j = entry_index(worker_names(cur), new[i].name);
            let changes = worker_changes(cur, new);
            &&& j < 0 ==> changes.contains(WorkerChange::Load(i as usize))
                && !changes.contains(WorkerChange::Update(i as usize))
            &&& j >= 0 ==> cur[j].name == new[i].name && !changes.contains(WorkerChange::Load(i as usize))
            &&& j >= 0 && (cur[j].from != new[i].from || cur[j].role != new[i].role || cur[j].description
                != new[i].description || cur[j].depends_on != new[i].depends_on || exists|p: (Seq<char>, Seq<char>)|
                cur[j].params.contains(p) != new[i].params.contains(p)) ==> changes.contains(
                WorkerChange::Update(i as usize),
            )
            &&& j >= 0 && cur[j].from == new[i].from && cur[j].role == new[i].role && cur[j].description
                == new[i].description && cur[j].depends_on == new[i].depends_on && (forall|p: (Seq<char>, Seq<char>)|
                cur[j].params.contains(p) == new[i].params.contains(p)) ==> !changes.contains(
                WorkerChange::Update(i as usize),
            )
        }),
{
    let j = entry_index(worker_names(cur), new[i].name);
    let loads = new_worker_changes(cur, new);
    let rems = removed_worker_changes(cur, new);
    let changes = worker_changes(cur, new);
    lemma_new_change_at(cur, new, i);
    lemma_removed_changes_are_removals(cur, new);
    crate::keyed::lemma_entry_index(worker_names(cur), new[i].name);
    assert forall|c: WorkerChange| c !is Remove implies (changes.contains(c) <==> loads.contains(c)) by {
        if changes.contains(c) {
            let k = choose|k: int| 0 <= k < changes.len() && changes[k] == c;
            if k >= loads.len() {
                assert(changes[k] == rems[k - loads.len()]);
            } else {
                assert(changes[k] == loads[k]);
            }
        }
        if loads.contains(c) {
            let k = choose|k: int| 0 <= k < loads.len() && loads[k] == c;
            assert(changes[k] == c);
        }
    }
    if j >= 0 {
        assert(worker_names(cur)[j] == cur[j].name);
        if exists|p: (Seq<char>, Seq<char>)| cur[j].params.contains(p) != new[i].params.contains(p) {
            let p = choose|p: (Seq<char>, Seq<char>)| cur[j].params.contains(p) != new[i].params.contains(p);
            assert(!same_worker(cur[j], new[i]));
        }
    }
}

proof fn lemma_removed_change_at(cur: Seq<WorkerModel>, new: Seq<WorkerModel>, j: int)
    requires
        cur.len() <= usize::MAX,
        0 <= j < cur.len(),
    ensures
        removed_worker_changes(cur, new).contains(WorkerChange::Remove(j as usize)) <==> entry_index(
            worker_names(new),
            cur[j].name,
        ) < 0,
        forall|k: int|
            0 <= k < removed_worker_changes(cur, new).len() ==> match #[trigger] removed_worker_changes(cur, new)[k] {
                WorkerChange::Remove(x) => x < cur.len(),
                _ => false,
            },
    decreases cur.len(),
{
    let prev = removed_worker_changes(cur.drop_last(), new);
    let all = removed_worker_changes(cur, new);
    let n = cur.len() - 1;
    if n > 0 {
        if j < n {
            lemma_removed_change_at(cur.drop_last(), new, j);
        } else {
            lemma_removed_change_at(cur.drop_last(), new, 0);
        }
    }
    assert(cur.drop_last().len() == n);
    if entry_index(worker_names(new), cur.last().name) < 0 {
        assert(all == prev.push(WorkerChange::Remove(n as usize)));
        assert(all[prev.len() as int] == WorkerChange::Remove(n as usize));
        assert(forall|c: WorkerChange| all.contains(c) ==> prev.contains(c) || c == WorkerChange::Remove(n as usize));
        assert forall|c: WorkerChange| prev.contains(c) implies all.contains(c) by {
            let k = choose|k: int| 0 <= k < prev.len() && prev[k] == c;
            assert(all[k] == c);
        }
    } else {
        assert(all == prev);
    }
    if j == n {
        assert(!prev.contains(WorkerChange::Remove(j as usize))) by {
            if prev.contains(WorkerChange::Remove(j as usize)) {
                let k = choose|k: int| 0 <= k < prev.len() && prev[k] == WorkerChange::Remove(j as usize);
                assert(match prev[k] {
                    WorkerChange::Remove(x) => x < n,
                    _ => false,
                });
            }
        }
    } else {
        assert(cur.drop_last()[j] == cur[j]);
    }
}

/// When a spicepod is replaced, a current worker is unloaded exactly when
/// no new worker has its name.
pub proof fn lemma_worker_removed_iff_gone(cur: Seq<WorkerModel>, new: Seq<WorkerModel>, j: int)
    requires
        cur.len() <= usize::MAX,
        new.len() <= usize::MAX,
        0 <= j < cur.len(),
    ensures
        worker_changes(cur, new).contains(WorkerChange::Remove(j as usize)) <==> forall|i: int|
            0 <= i < new.len() ==> #[trigger] new[i].name != cur[j].name,
{
    let loads = new_worker_changes(cur, new);
    let rems = removed_worker_changes(cur, new);
    let changes = worker_changes(cur, new);
    lemma_removed_change_at(cur, new, j);
    lemma_new_changes_indices(cur, new);
    crate::keyed::lemma_entry_index(worker_names(new), cur[j].name);
    let c = WorkerChange::Remove(j as usize);
    if changes.contains(c) {
        let k = choose|k: int| 0 <= k < changes.len() && changes[k] == c;
        if k < loads.len() {
            assert(changes[k] == loads[k]);
        } else {
            assert(changes[k] == rems[k - loads.len()]);
        }
    }
    if rems.contains(c) {
        let k = choose|k: int| 0 <= k < rems.len() && rems[k] == c;
        assert(changes[loads.len() + k] == c);
    }
    let ns = worker_names(new);
    if entry_index(ns, cur[j].name) >= 0 {
        let x = entry_index(ns, cur[j].name);
        assert(ns[x] == new[x].name);
    } else {
        assert forall|i: int| 0 <= i < new.len() implies #[trigger] new[i].name != cur[j].name by {
            assert(ns[i] == new[i].name);
        }
    }
}

} // verus!
