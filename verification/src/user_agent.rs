//! The Spice user agent string.
//!
//! Format: `<client_name>/<client_version> (<client_system>) <platform_name>/<platform_version>
//! (<platform_system>) <extension_key>/<extension_value> ...`

use vstd::prelude::*;
use vstd::string::StringExecFns;
use crate::text::{join, lemma_find_absent, lemma_find_after, lemma_split_join, str_eq, trim, trim_chars, sub_chars, chars_of, find_char, find_in, is_ws, lemma_find_char, no_ws, push_char, split_whitespace, split_ws, string_of};

verus! {

broadcast use vstd::string::group_string_axioms;

/// The version of the platform that this library belongs to.
pub const PLATFORM_VERSION: &'static str = "0.1.0";

/// The abstract content of a [`SpiceUserAgent`].
pub struct AgentModel {
    pub client_name: Seq<char>,
    pub client_version: Seq<char>,
    pub client_system: Option<Seq<char>>,
    pub platform_name: Option<Seq<char>>,
    pub platform_version: Option<Seq<char>>,
    pub platform_system: Option<Seq<char>>,
    pub extensions: Seq<(Seq<char>, Seq<char>)>,
}

/// The characters of an optional string.
pub open spec fn opt_view(o: Option<String>) -> Option<Seq<char>> {
    match o {
        Some(s) => Some(s@),
        None => None,
    }
}

/// The characters of a list of key/value string pairs.
pub open spec fn pairs_view(v: Seq<(String, String)>) -> Seq<(Seq<char>, Seq<char>)> {
    v.map_values(|p: (String, String)| (p.0@, p.1@))
}

/// A Spice user agent. Extensions keep the order in which their keys were
/// first inserted; a key occurs at most once when built through this API.
#[derive(Debug, Clone, PartialEq, Eq)]
pub struct SpiceUserAgent {
    pub client_name: String,
    pub client_version: String,
    pub client_system: Option<String>,
    pub platform_name: Option<String>,
    pub platform_version: Option<String>,
    pub platform_system: Option<String>,
    pub extensions: Vec<(String, String)>,
}

impl View for SpiceUserAgent {
    type V = AgentModel;

    open spec fn view(&self) -> AgentModel {
        AgentModel {
            client_name: self.client_name@,
            client_version: self.client_version@,
            client_system: opt_view(self.client_system),
            platform_name: opt_view(self.platform_name),
            platform_version: opt_view(self.platform_version),
            platform_system: opt_view(self.platform_system),
            extensions: pairs_view(self.extensions@),
        }
    }
}

/// Index of the first extension with key `k`, or -1.
pub open spec fn key_index(exts: Seq<(Seq<char>, Seq<char>)>, k: Seq<char>) -> int
    decreases exts.len(),
{
    if exts.len() == 0 {
        -1
    } else if key_index(exts.drop_last(), k) >= 0 {
        key_index(exts.drop_last(), k)
    } else if exts.last().0 == k {
        exts.len() - 1
    } else {
        -1
    }
}

/// Map insertion on an ordered extension list: an existing key keeps its
/// place and takes the new value; a new key goes last.
pub open spec fn ext_insert(exts: Seq<(Seq<char>, Seq<char>)>, k: Seq<char>, v: Seq<char>) -> Seq<
    (Seq<char>, Seq<char>),
> {
    let i = key_index(exts, k);
    if i >= 0 {
        exts.update(i, (k, v))
    } else {
        exts.push((k, v))
    }
}

/// Inserts every pair of `more`, in order, into `exts`.
pub open spec fn ext_insert_all(
    exts: Seq<(Seq<char>, Seq<char>)>,
    more: Seq<(Seq<char>, Seq<char>)>,
) -> Seq<(Seq<char>, Seq<char>)>
    decreases more.len(),
{
    if more.len() == 0 {
        exts
    } else {
        let e = ext_insert_all(exts, more.drop_last());
        ext_insert(e, more.last().0, more.last().1)
    }
}

/// `key_index` is the first index holding key `k`.
pub proof fn lemma_key_index(exts: Seq<(Seq<char>, Seq<char>)>, k: Seq<char>)
    ensures
        -1 <= key_index(exts, k) < exts.len(),
        key_index(exts, k) >= 0 ==> exts[key_index(exts, k)].0 == k,
        forall|j: int|
            0 <= j < exts.len() && (key_index(exts, k) < 0 || j < key_index(exts, k))
                ==> exts[j].0 != k,
    decreases exts.len(),
{
    if exts.len() > 0 {
        lemma_key_index(exts.drop_last(), k);
        assert forall|j: int|
            0 <= j < exts.len() && (key_index(exts, k) < 0 || j < key_index(exts, k)) implies exts[j].0
            != k by {
            if j < exts.len() - 1 {
                assert(exts.drop_last()[j] == exts[j]);
            }
        }
    }
}

/// The value an extension list gives for key `k`.
pub open spec fn ext_get(e: Seq<(Seq<char>, Seq<char>)>, k: Seq<char>) -> Option<Seq<char>> {
    let i = key_index(e, k);
    if i >= 0 {
        Some(e[i].1)
    } else {
        None
    }
}

/// No two extensions share a key.
pub open spec fn keys_unique(e: Seq<(Seq<char>, Seq<char>)>) -> bool {
    forall|i: int, j: int| 0 <= i < j < e.len() ==> e[i].0 != e[j].0
}

/// Extensions behave as a map: after inserting `k`/`v`, key `k` gives `v`,
/// every other key gives what it gave before, and keys stay unique.
pub proof fn lemma_ext_insert(
    e: Seq<(Seq<char>, Seq<char>)>,
    k: Seq<char>,
    v: Seq<char>,
    other: Seq<char>,
)
    ensures
        ext_get(ext_insert(e, k, v), k) == Some(v),
        other != k ==> ext_get(ext_insert(e, k, v), other) == ext_get(e, other),
        keys_unique(e) ==> keys_unique(ext_insert(e, k, v)),
{
    let i = key_index(e, k);
    let n = ext_insert(e, k, v);
    lemma_key_index(e, k);
    lemma_key_index(e, other);
    lemma_key_index(n, k);
    lemma_key_index(n, other);
    if i >= 0 {
        assert(forall|m: int| 0 <= m < e.len() ==> #[trigger] n[m].0 == e[m].0);
        let r = key_index(n, k);
        if r != i {
            if r >= 0 && r < i {
                assert(e[r].0 == k);
            }
            assert(n[i].0 == k);
        }
        if other != k {
            let a = key_index(e, other);
            let b = key_index(n, other);
            if a != b {
                if a >= 0 && (b < 0 || a < b) {
                    assert(n[a].0 == other);
                } else if b >= 0 {
                    assert(e[b].0 == other);
                }
            }
            if a >= 0 {
                assert(a != i);
            }
        }
    } else {
        assert(n.drop_last() =~= e);
        if other != k {
            assert(key_index(n, other) == key_index(e, other));
            if key_index(e, other) >= 0 {
                assert(n[key_index(e, other)] == e[key_index(e, other)]);
            }
        }
        if keys_unique(e) {
            assert forall|a: int, b: int| 0 <= a < b < n.len() implies n[a].0 != n[b].0 by {
                if b == e.len() {
                    assert(n[a] == e[a]);
                } else {
                    assert(n[a] == e[a] && n[b] == e[b]);
                }
            }
        }
    }
}

/// Inserts `key`/`value` into an extension list with map semantics.
pub fn insert_extension(exts: &mut Vec<(String, String)>, key: String, value: String)
    ensures
        pairs_view(final(exts)@) == ext_insert(pairs_view(old(exts)@), key@, value@),
{
    let ghost ev = pairs_view(exts@);
    proof {
        lemma_key_index(ev, key@);
    }
    let mut i: usize = 0;
    while i < exts.len()
        invariant
            i <= exts.len(),
            ev == pairs_view(exts@),
            ev == pairs_view(old(exts)@),
            exts@.len() == ev.len(),
            forall|j: int| 0 <= j < i ==> ev[j].0 != key@,
            -1 <= key_index(ev, key@) < ev.len(),
            key_index(ev, key@) >= 0 ==> ev[key_index(ev, key@)].0 == key@,
            forall|j: int|
                0 <= j < ev.len() && (key_index(ev, key@) < 0 || j < key_index(ev, key@))
                    ==> ev[j].0 != key@,
        decreases exts.len() - i,
    {
        assert(ev[i as int].0 == exts@[i as int].0@);
        if exts[i].0 == key {
            assert(key_index(ev, key@) == i);
            exts.set(i, (key, value));
            assert(pairs_view(exts@) =~= ev.update(i as int, (key@, value@)));
            return;
        }
        i += 1;
    }
    assert(key_index(ev, key@) == -1);
    exts.push((key, value));
    assert(pairs_view(exts@) =~= ev.push((key@, value@)));
}


/// Copies an extension list.
pub fn clone_pairs(v: &Vec<(String, String)>) -> (res: Vec<(String, String)>)
    ensures
        pairs_view(res@) == pairs_view(v@),
{
    let mut res: Vec<(String, String)> = Vec::new();
    let mut i: usize = 0;
    while i < v.len()
        invariant
            i <= v.len(),
            pairs_view(res@) == pairs_view(v@).take(i as int),
        decreases v.len() - i,
    {
        let k = v[i].0.clone();
        let val = v[i].1.clone();
        let ghost prev = res@;
        res.push((k, val));
        assert(pairs_view(res@) =~= pairs_view(prev).push((v@[i as int].0@, v@[i as int].1@)));
        assert(pairs_view(v@).take(i + 1) =~= pairs_view(v@).take(i as int).push(
            pairs_view(v@)[i as int],
        ));
        i += 1;
    }
    assert(pairs_view(v@).take(v.len() as int) =~= pairs_view(v@));
    res
}

/// Copies an optional string.
pub fn clone_opt(o: &Option<String>) -> (res: Option<String>)
    ensures
        opt_view(res) == opt_view(*o),
{
    match o {
        Some(s) => Some(s.clone()),
        None => None,
    }
}

/// Map insertion of each pair of `more`, in order, into `exts`.
pub fn insert_all_extensions(exts: &mut Vec<(String, String)>, more: Vec<(String, String)>)
    ensures
        pairs_view(final(exts)@) == ext_insert_all(pairs_view(old(exts)@), pairs_view(more@)),
{
    let mut i: usize = 0;
    while i < more.len()
        invariant
            i <= more.len(),
            pairs_view(exts@) == ext_insert_all(
                pairs_view(old(exts)@),
                pairs_view(more@).take(i as int),
            ),
        decreases more.len() - i,
    {
        let k = more[i].0.clone();
        let v = more[i].1.clone();
        assert(pairs_view(more@).take(i + 1).drop_last() =~= pairs_view(more@).take(i as int));
        insert_extension(exts, k, v);
        i += 1;
    }
    assert(pairs_view(more@).take(more.len() as int) =~= pairs_view(more@));
}

/// The user agent that [`SpiceUserAgent::default`] returns.
pub open spec fn default_agent() -> AgentModel {
    AgentModel {
        client_name: "unknown"@,
        client_version: "unknown"@,
        client_system: None,
        platform_name: Some("spiced"@),
        platform_version: Some(PLATFORM_VERSION@),
        platform_system: None,
        extensions: Seq::empty(),
    }
}

impl Default for SpiceUserAgent {
    /// A user agent for an unknown client on this platform. The platform
    /// system is not detected here: see [`SpiceUserAgent::for_platform_system`].
    fn default() -> (res: Self)
        ensures
            res@ == default_agent(),
    {
        let extensions: Vec<(String, String)> = Vec::new();
        assert(pairs_view(extensions@) =~= Seq::empty());
        SpiceUserAgent {
            client_name: String::from_str("unknown"),
            client_version: String::from_str("unknown"),
            client_system: None,
            platform_name: Some(String::from_str("spiced")),
            platform_version: Some(get_platform_version()),
            platform_system: None,
            extensions,
        }
    }
}

/// The platform version string.
pub fn get_platform_version() -> (res: String)
    ensures
        res@ == PLATFORM_VERSION@,
{
    String::from_str(PLATFORM_VERSION)
}

impl SpiceUserAgent {
    /// The default user agent, with the platform system that the caller detected.
    pub fn for_platform_system(platform_system: &str) -> (res: Self)
        ensures
            res@ == (AgentModel { platform_system: Some(platform_system@), ..default_agent() }),
    {
        let d = SpiceUserAgent::default();
        d.with_platform_system(platform_system)
    }

    pub fn with_client_name(self, client_name: &str) -> (res: Self)
        ensures
            res@ == (AgentModel { client_name: client_name@, ..self@ }),
    {
        let mut s = self;
        s.client_name = String::from_str(client_name);
        s
    }

    pub fn with_client_version(self, client_version: &str) -> (res: Self)
        ensures
            res@ == (AgentModel { client_version: client_version@, ..self@ }),
    {
        let mut s = self;
        s.client_version = String::from_str(client_version);
        s
    }

    /// Sets the client version to the version of this library.
    pub fn with_client_version_from_cargo(self) -> (res: Self)
        ensures
            res@ == (AgentModel { client_version: PLATFORM_VERSION@, ..self@ }),
    {
        let mut s = self;
        s.client_version = String::from_str(PLATFORM_VERSION);
        s
    }

    pub fn with_client_system(self, client_system: &str) -> (res: Self)
        ensures
            res@ == (AgentModel { client_system: Some(client_system@), ..self@ }),
    {
        let mut s = self;
        s.client_system = Some(String::from_str(client_system));
        s
    }

    pub fn with_client_system_option(self, client_system: &Option<String>) -> (res: Self)
        ensures
            res@ == (AgentModel { client_system: opt_view(*client_system), ..self@ }),
    {
        let mut s = self;
        s.client_system = clone_opt(client_system);
        s
    }

    pub fn with_platform_name(self, platform_name: &str) -> (res: Self)
        ensures
            res@ == (AgentModel { platform_name: Some(platform_name@), ..self@ }),
    {
        let mut s = self;
        s.platform_name = Some(String::from_str(platform_name));
        s
    }

    pub fn with_platform_name_option(self, platform_name: &Option<String>) -> (res: Self)
        ensures
            res@ == (AgentModel { platform_name: opt_view(*platform_name), ..self@ }),
    {
        let mut s = self;
        s.platform_name = clone_opt(platform_name);
        s
    }

    pub fn with_platform_version(self, platform_version: &str) -> (res: Self)
        ensures
            res@ == (AgentModel { platform_version: Some(platform_version@), ..self@ }),
    {
        let mut s = self;
        s.platform_version = Some(String::from_str(platform_version));
        s
    }

    pub fn with_platform_version_option(self, platform_version: &Option<String>) -> (res: Self)
        ensures
            res@ == (AgentModel { platform_version: opt_view(*platform_version), ..self@ }),
    {
        let mut s = self;
        s.platform_version = clone_opt(platform_version);
        s
    }

    pub fn with_platform_system(self, platform_system: &str) -> (res: Self)
        ensures
            res@ == (AgentModel { platform_system: Some(platform_system@), ..self@ }),
    {
        let mut s = self;
        s.platform_system = Some(String::from_str(platform_system));
        s
    }

    pub fn with_platform_system_option(self, platform_system: &Option<String>) -> (res: Self)
        ensures
            res@ == (AgentModel { platform_system: opt_view(*platform_system), ..self@ }),
    {
        let mut s = self;
        s.platform_system = clone_opt(platform_system);
        s
    }

    /// Replaces the extensions by the map that the pairs build, a later pair
    /// overriding an earlier one with the same key.
    pub fn with_extensions(self, extensions: Vec<(String, String)>) -> (res: Self)
        ensures
            res@ == (AgentModel {
                extensions: ext_insert_all(Seq::empty(), pairs_view(extensions@)),
                ..self@
            }),
    {
        let mut s = self;
        let mut exts: Vec<(String, String)> = Vec::new();
        assert(pairs_view(exts@) =~= Seq::empty());
        insert_all_extensions(&mut exts, extensions);
        s.extensions = exts;
        s
    }

    /// Sets one extension.
    pub fn with_extension(self, key: &str, value: &str) -> (res: Self)
        ensures
            res@ == (AgentModel {
                extensions: ext_insert(self@.extensions, key@, value@),
                ..self@
            }),
    {
        let mut s = self;
        insert_extension(&mut s.extensions, String::from_str(key), String::from_str(value));
        s
    }

    /// The client part of `other` on the platform of `self`; the extensions of
    /// both, those of `other` overriding those of `self`.
    pub fn merge_client(&self, other: &SpiceUserAgent) -> (res: SpiceUserAgent)
        ensures
            res@ == (AgentModel {
                client_name: other@.client_name,
                client_version: other@.client_version,
                client_system: other@.client_system,
                platform_name: self@.platform_name,
                platform_version: self@.platform_version,
                platform_system: self@.platform_system,
                extensions: ext_insert_all(self@.extensions, other@.extensions),
            }),
    {
        let mut exts = clone_pairs(&self.extensions);
        let more = clone_pairs(&other.extensions);
        insert_all_extensions(&mut exts, more);
        let d = SpiceUserAgent::default().with_client_name(other.client_name.as_str()).with_client_version(
            other.client_version.as_str(),
        ).with_client_system_option(&other.client_system).with_platform_name_option(
            &self.platform_name,
        ).with_platform_version_option(&self.platform_version).with_platform_system_option(
            &self.platform_system,
        );
        SpiceUserAgent { extensions: exts, ..d }
    }
}


/// ` (<system>)`, or nothing.
pub open spec fn system_text(o: Option<Seq<char>>) -> Seq<char> {
    match o {
        Some(sys) => seq![' ', '('] + sys + seq![')'],
        None => Seq::empty(),
    }
}

/// ` <key>/<value>` for each extension, in order.
pub open spec fn exts_text(exts: Seq<(Seq<char>, Seq<char>)>) -> Seq<char>
    decreases exts.len(),
{
    if exts.len() == 0 {
        Seq::empty()
    } else {
        exts_text(exts.drop_last()) + seq![' '] + exts.last().0 + seq!['/'] + exts.last().1
    }
}

/// The text of a user agent.
pub open spec fn display(m: AgentModel) -> Seq<char> {
    let platform = match (m.platform_name, m.platform_version) {
        (Some(n), Some(v)) => seq![' '] + n + seq!['/'] + v + system_text(m.platform_system),
        _ => Seq::empty(),
    };
    m.client_name + seq!['/'] + m.client_version + system_text(m.client_system) + platform
        + exts_text(m.extensions)
}

fn append_system(s: &mut String, o: &Option<String>)
    ensures
        final(s)@ == old(s)@ + system_text(opt_view(*o)),
{
    match o {
        Some(sys) => {
            push_char(s, ' ');
            push_char(s, '(');
            s.append(sys.as_str());
            push_char(s, ')');
        },
        None => {},
    }
}

impl SpiceUserAgent {
    /// The user agent text (the `Display` form).
    pub fn to_string(&self) -> (res: String)
        ensures
            res@ == display(self@),
    {
        let mut s = String::new();
        s.append(self.client_name.as_str());
        push_char(&mut s, '/');
        s.append(self.client_version.as_str());
        append_system(&mut s, &self.client_system);
        let ghost head = s@;
        match (&self.platform_name, &self.platform_version) {
            (Some(n), Some(v)) => {
                push_char(&mut s, ' ');
                s.append(n.as_str());
                push_char(&mut s, '/');
                s.append(v.as_str());
                append_system(&mut s, &self.platform_system);
            },
            _ => {},
        }
        let ghost base = s@;
        let ghost ev = self@.extensions;
        let mut i: usize = 0;
        while i < self.extensions.len()
            invariant
                i <= self.extensions.len(),
                ev == pairs_view(self.extensions@),
                s@ == base + exts_text(ev.take(i as int)),
            decreases self.extensions.len() - i,
        {
            assert(ev.take(i + 1).drop_last() =~= ev.take(i as int));
            push_char(&mut s, ' ');
            s.append(self.extensions[i].0.as_str());
            push_char(&mut s, '/');
            s.append(self.extensions[i].1.as_str());
            i += 1;
        }
        assert(ev.take(self.extensions.len() as int) =~= ev);
        s
    }
}


/// Why a user agent text could not be parsed.
#[derive(Debug, Clone, Copy, PartialEq, Eq, Structural)]
pub enum UserAgentError {
    /// The text holds no word.
    MissingClientInfo,
    /// The first word holds no `/`.
    MissingClientVersion,
}

/// What the words after the first one have set.
pub struct ParseState {
    pub client_system: Option<Seq<char>>,
    pub platform_name: Option<Seq<char>>,
    pub platform_version: Option<Seq<char>>,
    pub platform_system: Option<Seq<char>>,
    pub extensions: Seq<(Seq<char>, Seq<char>)>,
}

/// A word of the form `(<system>)`.
pub open spec fn is_system_word(t: Seq<char>) -> bool {
    t.len() >= 2 && t[0] == '(' && t[t.len() - 1] == ')'
}

/// The first two `/`-separated pieces of a word that holds a `/`.
pub open spec fn slash_pair(t: Seq<char>) -> (Seq<char>, Seq<char>) {
    let i = find_char(t, '/');
    let rest = t.skip(i + 1);
    let j = find_char(rest, '/');
    (t.take(i), if j >= 0 { rest.take(j) } else { rest })
}

/// The effect of one word after the client word: the first `(x)` is the
/// client system and the second the platform system; the first `k/v` is the
/// platform, the later ones extensions. Other words are ignored.
pub open spec fn parse_step(st: ParseState, t: Seq<char>) -> ParseState {
    if is_system_word(t) {
        let sys = t.subrange(1, t.len() - 1);
        if st.client_system is None {
            ParseState { client_system: Some(sys), ..st }
        } else if st.platform_system is None {
            ParseState { platform_system: Some(sys), ..st }
        } else {
            st
        }
    } else if find_char(t, '/') >= 0 {
        let (k, v) = slash_pair(t);
        if st.platform_name is None {
            ParseState { platform_name: Some(k), platform_version: Some(v), ..st }
        } else {
            ParseState { extensions: ext_insert(st.extensions, k, v), ..st }
        }
    } else {
        st
    }
}

/// The state after the words `ws`, in order.
pub open spec fn parse_fold(ws: Seq<Seq<char>>) -> ParseState
    decreases ws.len(),
{
    if ws.len() == 0 {
        ParseState {
            client_system: None,
            platform_name: None,
            platform_version: None,
            platform_system: None,
            extensions: Seq::empty(),
        }
    } else {
        parse_step(parse_fold(ws.drop_last()), ws.last())
    }
}

/// The user agent that a text describes. A platform name and version that
/// no platform system follows is read as an extension; platform fields that
/// the text leaves unset take their default values.
pub open spec fn parse_agent(s: Seq<char>) -> Result<AgentModel, UserAgentError> {
    let ws = split_ws(s);
    if ws.len() == 0 {
        Err(UserAgentError::MissingClientInfo)
    } else if find_char(ws[0], '/') < 0 {
        Err(UserAgentError::MissingClientVersion)
    } else {
        let (name, version) = slash_pair(ws[0]);
        let st = parse_fold(ws.skip(1));
        let demote = st.platform_name is Some && st.platform_version is Some
            && st.platform_system is None;
        let exts = if st.extensions.len() > 0 {
            st.extensions
        } else if demote {
            seq![(st.platform_name->0, st.platform_version->0)]
        } else {
            Seq::empty()
        };
        let d = default_agent();
        Ok(
            AgentModel {
                client_name: name,
                client_version: version,
                client_system: st.client_system,
                platform_name: if demote || st.platform_name is None {
                    d.platform_name
                } else {
                    st.platform_name
                },
                platform_version: if demote || st.platform_version is None {
                    d.platform_version
                } else {
                    st.platform_version
                },
                platform_system: st.platform_system,
                extensions: exts,
            },
        )
    }
}

struct ParseAcc {
    client_system: Option<String>,
    platform_name: Option<String>,
    platform_version: Option<String>,
    platform_system: Option<String>,
    extensions: Vec<(String, String)>,
}

impl ParseAcc {
    spec fn state(&self) -> ParseState {
        ParseState {
            client_system: opt_view(self.client_system),
            platform_name: opt_view(self.platform_name),
            platform_version: opt_view(self.platform_version),
            platform_system: opt_view(self.platform_system),
            extensions: pairs_view(self.extensions@),
        }
    }
}

fn split_slash(t: &Vec<char>, i: usize) -> (res: (String, String))
    requires
        find_char(t@, '/') == i,
    ensures
        res.0@ == slash_pair(t@).0,
        res.1@ == slash_pair(t@).1,
{
    proof {
        lemma_find_char(t@, '/');
    }
    assert(i < t.len());
    let key = sub_chars(t.as_slice(), 0, i);
    let rest = sub_chars(t.as_slice(), i + 1, t.len());
    assert(rest@ =~= t@.skip(i + 1));
    assert(key@ =~= t@.take(i as int));
    let value = match find_in(rest.as_slice(), '/') {
        Some(j) => {
            proof {
                lemma_find_char(rest@, '/');
            }
            let v = sub_chars(rest.as_slice(), 0, j);
            assert(v@ =~= rest@.take(j as int));
            v
        },
        None => rest,
    };
    (string_of(key.as_slice()), string_of(value.as_slice()))
}

fn parse_word(acc: &mut ParseAcc, t: &Vec<char>)
    ensures
        final(acc).state() == parse_step(old(acc).state(), t@),
{
    let n = t.len();
    if n >= 2 && t[0] == '(' && t[n - 1] == ')' {
        let sys = string_of(sub_chars(t.as_slice(), 1, n - 1).as_slice());
        if acc.client_system.is_none() {
            acc.client_system = Some(sys);
        } else if acc.platform_system.is_none() {
            acc.platform_system = Some(sys);
        }
    } else {
        match find_in(t.as_slice(), '/') {
            Some(i) => {
                let (k, v) = split_slash(t, i);
                if acc.platform_name.is_none() {
                    acc.platform_name = Some(k);
                    acc.platform_version = Some(v);
                } else {
                    insert_extension(&mut acc.extensions, k, v);
                }
            },
            None => {},
        }
    }
}

impl SpiceUserAgent {
    /// Reads a user agent from its text.
    pub fn try_from(s: String) -> (res: Result<SpiceUserAgent, UserAgentError>)
        ensures
            match parse_agent(s@) {
                Ok(m) => res is Ok && res->Ok_0@ == m,
                Err(e) => res == Err::<SpiceUserAgent, UserAgentError>(e),
            },
    {
        let chars = chars_of(s.as_str());
        let words = split_whitespace(chars.as_slice());
        let ghost ws = words@.map_values(|w: Vec<char>| w@);
        if words.len() == 0 {
            return Err(UserAgentError::MissingClientInfo);
        }
        assert(ws[0] == words@[0]@);
        let i = match find_in(words[0].as_slice(), '/') {
            Some(i) => i,
            None => {
                return Err(UserAgentError::MissingClientVersion);
            },
        };
        let (name, version) = split_slash(&words[0], i);
        let no_exts: Vec<(String, String)> = Vec::new();
        let mut acc = ParseAcc {
            client_system: None,
            platform_name: None,
            platform_version: None,
            platform_system: None,
            extensions: no_exts,
        };
        assert(pairs_view(acc.extensions@) =~= Seq::empty());
        assert(ws.subrange(1, 1) =~= Seq::<Seq<char>>::empty());
        assert(acc.state() == parse_fold(ws.subrange(1, 1)));
        let mut k: usize = 1;
        while k < words.len()
            invariant
                1 <= k <= words.len(),
                ws == words@.map_values(|w: Vec<char>| w@),
                acc.state() == parse_fold(ws.subrange(1, k as int)),
            decreases words.len() - k,
        {
            assert(ws.subrange(1, k + 1).drop_last() =~= ws.subrange(1, k as int));
            assert(ws[k as int] == words@[k as int]@);
            parse_word(&mut acc, &words[k]);
            k += 1;
        }
        assert(ws.subrange(1, words.len() as int) =~= ws.skip(1));
        let demote = acc.platform_name.is_some() && acc.platform_version.is_some()
            && acc.platform_system.is_none();
        let mut agent = SpiceUserAgent::default();
        agent.client_name = name;
        agent.client_version = version;
        agent.client_system = acc.client_system;
        agent.platform_system = acc.platform_system;
        if demote {
            if acc.extensions.len() > 0 {
                agent.extensions = acc.extensions;
            } else {
                let mut one: Vec<(String, String)> = Vec::new();
                let pn = acc.platform_name.unwrap();
                let pv = acc.platform_version.unwrap();
                one.push((pn, pv));
                assert(pairs_view(one@) =~= seq![(pn@, pv@)]);
                agent.extensions = one;
            }
        } else {
            if acc.extensions.len() > 0 {
                agent.extensions = acc.extensions;
            }
            match acc.platform_name {
                Some(pn) => {
                    agent.platform_name = Some(pn);
                },
                None => {},
            }
            match acc.platform_version {
                Some(pv) => {
                    agent.platform_version = Some(pv);
                },
                None => {},
            }
        }
        Ok(agent)
    }
}


/// The display name of an operating system identifier (`std::env::consts::OS`).
pub open spec fn os_type_spec(os: Seq<char>) -> Seq<char> {
    if os == ""@ {
        "unknown"@
    } else if os == "macos"@ {
        "Darwin"@
    } else if os == "linux"@ {
        "Linux"@
    } else if os == "windows"@ {
        "Windows"@
    } else if os == "ios"@ {
        "iOS"@
    } else if os == "android"@ {
        "Android"@
    } else if os == "freebsd"@ {
        "FreeBSD"@
    } else if os == "dragonfly"@ {
        "DragonFlyBSD"@
    } else if os == "netbsd"@ {
        "NetBSD"@
    } else if os == "openbsd"@ {
        "OpenBSD"@
    } else if os == "solaris"@ {
        "Solaris"@
    } else {
        os
    }
}

/// Maps an operating system identifier to its display name.
pub fn os_type_name(os: &str) -> (res: String)
    ensures
        res@ == os_type_spec(os@),
{
    if str_eq(os, "") {
        String::from_str("unknown")
    } else if str_eq(os, "macos") {
        String::from_str("Darwin")
    } else if str_eq(os, "linux") {
        String::from_str("Linux")
    } else if str_eq(os, "windows") {
        String::from_str("Windows")
    } else if str_eq(os, "ios") {
        String::from_str("iOS")
    } else if str_eq(os, "android") {
        String::from_str("Android")
    } else if str_eq(os, "freebsd") {
        String::from_str("FreeBSD")
    } else if str_eq(os, "dragonfly") {
        String::from_str("DragonFlyBSD")
    } else if str_eq(os, "netbsd") {
        String::from_str("NetBSD")
    } else if str_eq(os, "openbsd") {
        String::from_str("OpenBSD")
    } else if str_eq(os, "solaris") {
        String::from_str("Solaris")
    } else {
        String::from_str(os)
    }
}

/// The display name of an architecture identifier (`std::env::consts::ARCH`).
pub open spec fn os_arch_spec(arch: Seq<char>) -> Seq<char> {
    if arch == ""@ {
        "unknown"@
    } else if arch == "x86"@ {
        "i386"@
    } else {
        arch
    }
}

/// Maps an architecture identifier to its display name.
pub fn os_arch_name(arch: &str) -> (res: String)
    ensures
        res@ == os_arch_spec(arch@),
{
    if str_eq(arch, "") {
        String::from_str("unknown")
    } else if str_eq(arch, "x86") {
        String::from_str("i386")
    } else {
        String::from_str(arch)
    }
}

/// The operating system release from what the release query printed: the
/// trimmed text, or `unknown` when the query failed.
pub fn get_os_release(raw: Option<String>) -> (res: String)
    ensures
        res@ == match raw {
            Some(r) => trim(r@),
            None => trim("unknown"@),
        },
{
    let text = match raw {
        Some(r) => r,
        None => String::from_str("unknown"),
    };
    let cs = chars_of(text.as_str());
    let t = trim_chars(cs.as_slice());
    string_of(t.as_slice())
}

/// `<os_type>/<os_release> <os_arch>`.
pub fn get_platform_os_string(os_type: &str, os_release: &str, os_arch: &str) -> (res: String)
    ensures
        res@ == os_type@ + seq!['/'] + os_release@ + seq![' '] + os_arch@,
{
    let mut s = String::from_str(os_type);
    push_char(&mut s, '/');
    s.append(os_release);
    push_char(&mut s, ' ');
    s.append(os_arch);
    s
}


/// A word with no whitespace and no `/`.
pub open spec fn is_field(t: Seq<char>) -> bool {
    no_ws(t) && !t.contains('/')
}

/// A field with no parenthesis either.
pub open spec fn is_plain(t: Seq<char>) -> bool {
    is_field(t) && !t.contains('(') && !t.contains(')')
}

/// A user agent whose text reads back as itself: every part is present,
/// the client name and version are fields, the systems have no
/// whitespace, the platform and extension parts are plain, and extension
/// keys are unique.
pub open spec fn displayable(m: AgentModel) -> bool {
    &&& is_field(m.client_name)
    &&& is_field(m.client_version)
    &&& m.client_system matches Some(cs) && no_ws(cs)
    &&& m.platform_name matches Some(pn) && is_plain(pn)
    &&& m.platform_version matches Some(pv) && is_plain(pv)
    &&& m.platform_system matches Some(ps) && no_ws(ps)
    &&& forall|i: int|
        0 <= i < m.extensions.len() ==> is_plain((#[trigger] m.extensions[i]).0) && is_plain(
            m.extensions[i].1,
        )
    &&& keys_unique(m.extensions)
}

/// `<k>/<v>`
pub open spec fn kv_word(k: Seq<char>, v: Seq<char>) -> Seq<char> {
    k + seq!['/'] + v
}

/// `(<s>)`
pub open spec fn sys_word(s: Seq<char>) -> Seq<char> {
    seq!['('] + s + seq![')']
}

/// The words of the extensions.
pub open spec fn ext_words(e: Seq<(Seq<char>, Seq<char>)>) -> Seq<Seq<char>> {
    e.map_values(|p: (Seq<char>, Seq<char>)| kv_word(p.0, p.1))
}

/// The words of a user agent whose parts are all present.
pub open spec fn agent_words(m: AgentModel) -> Seq<Seq<char>> {
    seq![
        kv_word(m.client_name, m.client_version),
        sys_word(m.client_system->0),
        kv_word(m.platform_name->0, m.platform_version->0),
        sys_word(m.platform_system->0),
    ] + ext_words(m.extensions)
}

proof fn lemma_join_exts(base: Seq<Seq<char>>, e: Seq<(Seq<char>, Seq<char>)>)
    requires
        base.len() > 0,
    ensures
        join(base + ext_words(e), seq![' ']) == join(base, seq![' ']) + exts_text(e),
    decreases e.len(),
{
    if e.len() == 0 {
        assert(base + ext_words(e) =~= base);
        assert(join(base, seq![' ']) + exts_text(e) =~= join(base, seq![' ']));
    } else {
        lemma_join_exts(base, e.drop_last());
        assert((base + ext_words(e)).drop_last() =~= base + ext_words(e.drop_last()));
        assert((base + ext_words(e)).last() == kv_word(e.last().0, e.last().1));
        assert(join(base, seq![' ']) + exts_text(e.drop_last()) + seq![' '] + kv_word(
            e.last().0,
            e.last().1,
        ) =~= join(base, seq![' ']) + exts_text(e));
    }
}

proof fn lemma_display_words(m: AgentModel)
    requires
        displayable(m),
    ensures
        display(m) == join(agent_words(m), seq![' ']),
{
    let b = seq![
        kv_word(m.client_name, m.client_version),
        sys_word(m.client_system->0),
        kv_word(m.platform_name->0, m.platform_version->0),
        sys_word(m.platform_system->0),
    ];
    lemma_join_exts(b, m.extensions);
    assert(b.drop_last().drop_last().drop_last() =~= seq![b[0]]);
    assert(b.drop_last().drop_last() =~= seq![b[0], b[1]]);
    assert(b.drop_last() =~= seq![b[0], b[1], b[2]]);
    let sp = seq![' '];
    assert(join(b.drop_last().drop_last().drop_last(), sp) == b[0]);
    assert(join(b.drop_last().drop_last(), sp) == b[0] + sp + b[1]);
    assert(join(b.drop_last(), sp) == b[0] + sp + b[1] + sp + b[2]);
    assert(join(b, sp) == b[0] + sp + b[1] + sp + b[2] + sp + b[3]);
    assert(display(m) =~= join(b, sp) + exts_text(m.extensions));
}

proof fn lemma_words_wellformed(m: AgentModel)
    requires
        displayable(m),
    ensures
        forall|i: int|
            0 <= i < agent_words(m).len() ==> (#[trigger] agent_words(m)[i]).len() > 0 && no_ws(
                agent_words(m)[i],
            ),
{
    let w = agent_words(m);
    assert forall|i: int| 0 <= i < w.len() implies (#[trigger] w[i]).len() > 0 && no_ws(w[i]) by {
        assert(!is_ws('/') && !is_ws('(') && !is_ws(')'));
        if i >= 4 {
            let p = m.extensions[i - 4];
            assert(w[i] == kv_word(p.0, p.1));
            assert(is_plain(p.0) && is_plain(p.1));
            assert forall|j: int| 0 <= j < w[i].len() implies !is_ws(#[trigger] w[i][j]) by {
                if j < p.0.len() {
                    assert(w[i][j] == p.0[j]);
                } else if j > p.0.len() {
                    assert(w[i][j] == p.1[j - p.0.len() - 1]);
                }
            }
        } else if i == 0 {
            assert forall|j: int| 0 <= j < w[i].len() implies !is_ws(#[trigger] w[i][j]) by {
                if j < m.client_name.len() {
                    assert(w[i][j] == m.client_name[j]);
                } else if j > m.client_name.len() {
                    assert(w[i][j] == m.client_version[j - m.client_name.len() - 1]);
                }
            }
        } else if i == 2 {
            let (n, v) = (m.platform_name->0, m.platform_version->0);
            assert forall|j: int| 0 <= j < w[i].len() implies !is_ws(#[trigger] w[i][j]) by {
                if j < n.len() {
                    assert(w[i][j] == n[j]);
                } else if j > n.len() {
                    assert(w[i][j] == v[j - n.len() - 1]);
                }
            }
        } else {
            let sy = if i == 1 {
                m.client_system->0
            } else {
                m.platform_system->0
            };
            assert(w[i] == sys_word(sy));
            assert forall|j: int| 0 <= j < w[i].len() implies !is_ws(#[trigger] w[i][j]) by {
                if 0 < j < w[i].len() - 1 {
                    assert(w[i][j] == sy[j - 1]);
                }
            }
        }
    }
}

proof fn lemma_slash_pair(k: Seq<char>, v: Seq<char>)
    requires
        !k.contains('/'),
        !v.contains('/'),
    ensures
        find_char(kv_word(k, v), '/') == k.len(),
        slash_pair(kv_word(k, v)) == (k, v),
{
    lemma_find_after(k, '/', v);
    let t = kv_word(k, v);
    assert(t.take(k.len() as int) =~= k);
    assert(t.skip((k.len() + 1) as int) =~= v);
    lemma_find_absent(v, '/');
}

proof fn lemma_step_kv(st: ParseState, k: Seq<char>, v: Seq<char>)
    requires
        is_plain(k),
        is_plain(v),
    ensures
        parse_step(st, kv_word(k, v)) == if st.platform_name is None {
            ParseState { platform_name: Some(k), platform_version: Some(v), ..st }
        } else {
            ParseState { extensions: ext_insert(st.extensions, k, v), ..st }
        },
{
    lemma_slash_pair(k, v);
    let t = kv_word(k, v);
    if k.len() > 0 {
        assert(t[0] == k[0]);
        assert(k.contains(k[0]));
    } else {
        assert(t[0] == '/');
    }
    assert(!is_system_word(t));
}

proof fn lemma_step_sys(st: ParseState, sy: Seq<char>)
    ensures
        parse_step(st, sys_word(sy)) == if st.client_system is None {
            ParseState { client_system: Some(sy), ..st }
        } else if st.platform_system is None {
            ParseState { platform_system: Some(sy), ..st }
        } else {
            st
        },
{
    let t = sys_word(sy);
    assert(t.subrange(1, t.len() - 1) =~= sy);
    assert(is_system_word(t));
}

proof fn lemma_fold_exts(p: Seq<Seq<char>>, e: Seq<(Seq<char>, Seq<char>)>)
    requires
        parse_fold(p).platform_name is Some,
        forall|i: int| 0 <= i < e.len() ==> is_plain((#[trigger] e[i]).0) && is_plain(e[i].1),
    ensures
        parse_fold(p + ext_words(e)) == (ParseState {
            extensions: ext_insert_all(parse_fold(p).extensions, e),
            ..parse_fold(p)
        }),
    decreases e.len(),
{
    if e.len() == 0 {
        assert(p + ext_words(e) =~= p);
    } else {
        let d = e.drop_last();
        assert forall|i: int| 0 <= i < d.len() implies is_plain((#[trigger] d[i]).0) && is_plain(
            d[i].1,
        ) by {
            assert(d[i] == e[i]);
        }
        lemma_fold_exts(p, d);
        assert((p + ext_words(e)).drop_last() =~= p + ext_words(d));
        assert((p + ext_words(e)).last() == kv_word(e.last().0, e.last().1));
        assert(e.last() == e[e.len() - 1]);
        lemma_step_kv(parse_fold(p + ext_words(d)), e.last().0, e.last().1);
    }
}

proof fn lemma_insert_all_unique(e: Seq<(Seq<char>, Seq<char>)>)
    requires
        keys_unique(e),
    ensures
        ext_insert_all(Seq::empty(), e) == e,
    decreases e.len(),
{
    if e.len() > 0 {
        let d = e.drop_last();
        assert(keys_unique(d)) by {
            assert forall|i: int, j: int| 0 <= i < j < d.len() implies d[i].0 != d[j].0 by {
                assert(d[i] == e[i] && d[j] == e[j]);
            }
        }
        lemma_insert_all_unique(d);
        lemma_key_index(d, e.last().0);
        if key_index(d, e.last().0) >= 0 {
            let k = key_index(d, e.last().0);
            assert(d[k] == e[k]);
            assert(e.last() == e[e.len() - 1]);
        }
        assert(d.push((e.last().0, e.last().1)) =~= e);
    }
}

/// Reading back the text of a user agent gives the same user agent, when
/// all its parts are present and are words that the text keeps apart.
pub proof fn lemma_parse_display(m: AgentModel)
    requires
        displayable(m),
    ensures
        parse_agent(display(m)) == Ok::<AgentModel, UserAgentError>(m),
{
    lemma_display_words(m);
    lemma_words_wellformed(m);
    let w = agent_words(m);
    lemma_split_join(w);
    assert(split_ws(display(m)) == w);
    lemma_slash_pair(m.client_name, m.client_version);
    let (cs, pn, pv, ps) = (
        m.client_system->0,
        m.platform_name->0,
        m.platform_version->0,
        m.platform_system->0,
    );
    let p3 = seq![sys_word(cs), kv_word(pn, pv), sys_word(ps)];
    assert(w.skip(1) =~= p3 + ext_words(m.extensions));
    let init = parse_fold(Seq::<Seq<char>>::empty());
    assert(p3.drop_last().drop_last().drop_last() =~= Seq::<Seq<char>>::empty());
    assert(p3.drop_last().drop_last() =~= seq![sys_word(cs)]);
    assert(p3.drop_last() =~= seq![sys_word(cs), kv_word(pn, pv)]);
    lemma_step_sys(init, cs);
    let s1 = parse_fold(seq![sys_word(cs)]);
    lemma_step_kv(s1, pn, pv);
    let s2 = parse_fold(seq![sys_word(cs), kv_word(pn, pv)]);
    lemma_step_sys(s2, ps);
    let s3 = parse_fold(p3);
    assert(s3.client_system == Some(cs));
    assert(s3.platform_name == Some(pn));
    assert(s3.platform_version == Some(pv));
    assert(s3.platform_system == Some(ps));
    assert(s3.extensions == Seq::<(Seq<char>, Seq<char>)>::empty());
    lemma_fold_exts(p3, m.extensions);
    lemma_insert_all_unique(m.extensions);
    let st = parse_fold(w.skip(1));
    assert(st.extensions == m.extensions);
    if m.extensions.len() == 0 {
        assert(m.extensions =~= Seq::<(Seq<char>, Seq<char>)>::empty());
    }
}

} // verus!
