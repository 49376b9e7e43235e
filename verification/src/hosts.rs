//! Device alias registry: friendly names mapped to an IP address and a
//! protocol, kept ordered by name, with normalized (case- and
//! punctuation-insensitive) lookup.

use vstd::prelude::*;
use crate::text::{
    ascii_lower, chars_eq, chars_of, contains_chars, contains_seq, is_alnum, is_ascii_alnum,
    is_unicode_whitespace, leading_ws, lemma_leading_ws_bound, lemma_trailing_ws_bound, lower_ascii,
    push_char, string_of, trailing_ws, trim, trim_chars, trim_end, trim_start,
};

verus! {

/// Normalization of the rest `s` of a name: runs of separators collapse to
/// one space between words; no space leads or trails. `started` records that
/// a word has been emitted, `pending` that a separator follows it.
pub open spec fn squeeze(s: Seq<char>, started: bool, pending: bool) -> Seq<char>
    decreases s.len(),
{
    if s.len() == 0 {
        Seq::empty()
    } else if !is_ascii_alnum(s[0]) {
        squeeze(s.drop_first(), started, started)
    } else {
        (if pending { seq![' '] } else { Seq::empty() }) + seq![ascii_lower(s[0])]
            + squeeze(s.drop_first(), true, false)
    }
}

/// The normalized form of a name: lower-cased ASCII words, split at every
/// character that is not an ASCII letter or digit, joined by single spaces.
pub open spec fn normalize_spec(s: Seq<char>) -> Seq<char> {
    squeeze(s, false, false)
}

/// Normalizes a name for matching ("Coat-Rack  Lights" becomes "coat rack lights").
pub fn normalize(s: &str) -> (r: String)
    ensures
        r@ == normalize_spec(s@),
{
    let cs = chars_of(s);
    let mut out: Vec<char> = Vec::new();
    let mut started = false;
    let mut pending = false;
    let mut i: usize = 0;
    assert(cs@.subrange(0, cs@.len() as int) =~= cs@);
    while i < cs.len()
        invariant
            i <= cs@.len(),
            cs@ == s@,
            normalize_spec(s@) == out@ + squeeze(cs@.subrange(i as int, cs@.len() as int), started, pending),
        decreases cs@.len() - i,
    {
        let ghost rest = cs@.subrange(i as int, cs@.len() as int);
        assert(rest.drop_first() =~= cs@.subrange(i + 1, cs@.len() as int));
        let c = cs[i];
        if !is_alnum(c) {
            pending = started;
        } else {
            if pending {
                out.push(' ');
            }
            out.push(lower_ascii(c));
            started = true;
            pending = false;
        }
        i = i + 1;
        proof {
            assert(normalize_spec(s@) =~= out@ + squeeze(cs@.subrange(i as int, cs@.len() as int), started, pending));
        }
    }
    string_of(&out)
}

/// Lexicographic order of names by character (the order of their UTF-8
/// bytes, in which the registry lists them).
pub open spec fn lex_lt(a: Seq<char>, b: Seq<char>) -> bool
    decreases a.len(),
{
    if a.len() == 0 {
        b.len() > 0
    } else if b.len() == 0 {
        false
    } else if a[0] != b[0] {
        a[0] < b[0]
    } else {
        lex_lt(a.drop_first(), b.drop_first())
    }
}

pub proof fn lemma_lex_irreflexive(a: Seq<char>)
    ensures
        !lex_lt(a, a),
    decreases a.len(),
{
    if a.len() > 0 {
        lemma_lex_irreflexive(a.drop_first());
    }
}

pub proof fn lemma_lex_trichotomy(a: Seq<char>, b: Seq<char>)
    ensures
        lex_lt(a, b) || lex_lt(b, a) || a == b,
        !(lex_lt(a, b) && lex_lt(b, a)),
    decreases a.len(),
{
    if a.len() > 0 && b.len() > 0 {
        if a[0] == b[0] {
            lemma_lex_trichotomy(a.drop_first(), b.drop_first());
            if a.drop_first() == b.drop_first() {
                assert(a =~= seq![a[0]] + a.drop_first());
                assert(b =~= seq![b[0]] + b.drop_first());
            }
        } else {
        }
    } else if a.len() == 0 && b.len() == 0 {
        assert(a =~= b);
    }
}

pub proof fn lemma_lex_transitive(a: Seq<char>, b: Seq<char>, c: Seq<char>)
    requires
        lex_lt(a, b),
        lex_lt(b, c),
    ensures
        lex_lt(a, c),
    decreases a.len(),
{
    if a.len() > 0 && b.len() > 0 && c.len() > 0 {
        if a[0] == b[0] && b[0] == c[0] {
            lemma_lex_transitive(a.drop_first(), b.drop_first(), c.drop_first());
        }
    }
}

/// Whether `a` orders strictly before `b`.
pub fn chars_lt(a: &[char], b: &[char]) -> (r: bool)
    ensures
        r == lex_lt(a@, b@),
{
    let mut i: usize = 0;
    proof {
        assert(a@.subrange(0, a@.len() as int) =~= a@);
        assert(b@.subrange(0, b@.len() as int) =~= b@);
    }
    while i < a.len() && i < b.len() && a[i] == b[i]
        invariant
            i <= a@.len(),
            i <= b@.len(),
            lex_lt(a@, b@) == lex_lt(a@.subrange(i as int, a@.len() as int), b@.subrange(i as int, b@.len() as int)),
        decreases a@.len() - i,
    {
        let ghost sa = a@.subrange(i as int, a@.len() as int);
        let ghost sb = b@.subrange(i as int, b@.len() as int);
        assert(sa.drop_first() =~= a@.subrange(i + 1, a@.len() as int));
        assert(sb.drop_first() =~= b@.subrange(i + 1, b@.len() as int));
        i = i + 1;
    }
    if i == a.len() {
        i < b.len()
    } else if i == b.len() {
        false
    } else {
        let ghost sa = a@.subrange(i as int, a@.len() as int);
        let ghost sb = b@.subrange(i as int, b@.len() as int);
        assert(sa[0] == a@[i as int]);
        assert(sb[0] == b@[i as int]);
        a[i] < b[i]
    }
}

/// How a device is reached: the legacy Kasa XOR protocol on port 9999, or
/// Tapo's KLAP protocol over HTTP on port 80.
#[derive(Clone, Copy, Debug, PartialEq, Eq, Structural)]
pub enum Protocol {
    Kasa,
    Klap,
}

/// The lower-case name of a protocol, as stored and displayed.
pub open spec fn protocol_name(p: Protocol) -> Seq<char> {
    match p {
        Protocol::Kasa => seq!['k', 'a', 's', 'a'],
        Protocol::Klap => seq!['k', 'l', 'a', 'p'],
    }
}

impl Protocol {
    /// The display name: "kasa" or "klap".
    pub fn name(&self) -> (s: String)
        ensures
            s@ == protocol_name(*self),
    {
        let mut s = String::new();
        match self {
            Protocol::Kasa => {
                push_char(&mut s, 'k');
                push_char(&mut s, 'a');
                push_char(&mut s, 's');
                push_char(&mut s, 'a');
            },
            Protocol::Klap => {
                push_char(&mut s, 'k');
                push_char(&mut s, 'l');
                push_char(&mut s, 'a');
                push_char(&mut s, 'p');
            },
        }
        assert(s@ =~= protocol_name(*self));
        s
    }
}

/// A saved alias target: the device's IP address and its protocol.
#[derive(Debug)]
pub struct HostEntry {
    pub ip: String,
    pub protocol: Protocol,
}

impl View for HostEntry {
    type V = (Seq<char>, Protocol);

    open spec fn view(&self) -> (Seq<char>, Protocol) {
        (self.ip@, self.protocol)
    }
}

impl HostEntry {
    /// A copy of this entry.
    pub fn duplicate(&self) -> (r: HostEntry)
        ensures
            r@ == self@,
    {
        HostEntry { ip: self.ip.clone(), protocol: self.protocol }
    }
}

/// The abstract content of a registry entry: (name, (ip, protocol)).
pub type AliasView = (Seq<char>, (Seq<char>, Protocol));

/// The entries are listed in strictly increasing name order, so no name
/// occurs twice.
pub open spec fn keys_sorted(s: Seq<AliasView>) -> bool {
    forall|i: int, j: int| 0 <= i < j < s.len() ==> lex_lt(#[trigger] s[i].0, #[trigger] s[j].0)
}

/// The index of the first entry whose name does not order before `k`.
pub open spec fn insert_pos(s: Seq<AliasView>, k: Seq<char>) -> int
    decreases s.len(),
{
    if s.len() == 0 || !lex_lt(s[0].0, k) {
        0
    } else {
        1 + insert_pos(s.drop_first(), k)
    }
}

/// The registry after `k` is bound to `v` (replacing any entry for `k`).
pub open spec fn map_insert(s: Seq<AliasView>, k: Seq<char>, v: (Seq<char>, Protocol)) -> Seq<AliasView> {
    let p = insert_pos(s, k);
    if p < s.len() && s[p].0 == k {
        s.update(p, (k, v))
    } else {
        s.insert(p, (k, v))
    }
}

/// The registry after the entry for `k`, if any, is removed.
pub open spec fn map_remove(s: Seq<AliasView>, k: Seq<char>) -> Seq<AliasView> {
    let p = insert_pos(s, k);
    if p < s.len() && s[p].0 == k {
        s.remove(p)
    } else {
        s
    }
}

/// The value bound to `k`, if any.
pub open spec fn map_get(s: Seq<AliasView>, k: Seq<char>) -> Option<(Seq<char>, Protocol)> {
    let p = insert_pos(s, k);
    if p < s.len() && s[p].0 == k {
        Some(s[p].1)
    } else {
        None
    }
}

/// The registry built by binding each pair of `list` in turn.
pub open spec fn insert_all(base: Seq<AliasView>, list: Seq<AliasView>) -> Seq<AliasView>
    decreases list.len(),
{
    if list.len() == 0 {
        base
    } else {
        insert_all(map_insert(base, list[0].0, list[0].1), list.drop_first())
    }
}

pub proof fn lemma_insert_pos(s: Seq<AliasView>, k: Seq<char>)
    requires
        keys_sorted(s),
    ensures
        0 <= insert_pos(s, k) <= s.len(),
        forall|j: int| 0 <= j < insert_pos(s, k) ==> lex_lt(#[trigger] s[j].0, k),
        forall|j: int| insert_pos(s, k) <= j < s.len() ==> !lex_lt(#[trigger] s[j].0, k),
    decreases s.len(),
{
    if s.len() == 0 || !lex_lt(s[0].0, k) {
        assert forall|j: int| 0 <= j < s.len() implies !lex_lt(#[trigger] s[j].0, k) by {
            if j > 0 && lex_lt(s[j].0, k) {
                lemma_lex_transitive(s[0].0, s[j].0, k);
            }
        }
    } else {
        let d = s.drop_first();
        assert forall|i: int, j: int| 0 <= i < j < d.len() implies lex_lt(#[trigger] d[i].0, #[trigger] d[j].0) by {
            assert(d[i] == s[i + 1] && d[j] == s[j + 1]);
        }
        lemma_insert_pos(d, k);
        assert forall|j: int| 0 <= j < insert_pos(s, k) implies lex_lt(#[trigger] s[j].0, k) by {
            if j > 0 {
                assert(s[j] == d[j - 1]);
            }
        }
        assert forall|j: int| insert_pos(s, k) <= j < s.len() implies !lex_lt(#[trigger] s[j].0, k) by {
            assert(s[j] == d[j - 1]);
        }
    }
}

pub proof fn lemma_map_insert_sorted(s: Seq<AliasView>, k: Seq<char>, v: (Seq<char>, Protocol))
    requires
        keys_sorted(s),
    ensures
        keys_sorted(map_insert(s, k, v)),
{
    lemma_insert_pos(s, k);
    let p = insert_pos(s, k);
    let r = map_insert(s, k, v);
    assert forall|j: int| p <= j < s.len() && s[j].0 != k implies lex_lt(k, #[trigger] s[j].0) by {
        lemma_lex_trichotomy(s[j].0, k);
    }
    if p < s.len() && s[p].0 == k {
        assert forall|i: int, j: int| 0 <= i < j < r.len() implies lex_lt(#[trigger] r[i].0, #[trigger] r[j].0) by {
            if i == p {
                assert(lex_lt(s[p].0, s[j].0));
            } else if j == p {
                assert(lex_lt(s[i].0, s[p].0));
            }
        }
    } else {
        assert(r == s.insert(p, (k, v)));
        assert forall|j: int| p <= j < s.len() implies lex_lt(k, #[trigger] s[j].0) by {
            if j > p && s[j].0 == k {
                assert(lex_lt(s[p].0, s[j].0));
            }
            lemma_lex_trichotomy(s[j].0, k);
        }
        assert forall|i: int, j: int| 0 <= i < j < r.len() implies lex_lt(#[trigger] r[i].0, #[trigger] r[j].0) by {
            if j < p {
                assert(r[i] == s[i] && r[j] == s[j]);
            } else if j == p {
                assert(r[i] == s[i]);
            } else if i < p {
                assert(r[i] == s[i] && r[j] == s[j - 1]);
                lemma_lex_transitive(s[i].0, k, s[j - 1].0);
            } else if i == p {
                assert(r[j] == s[j - 1]);
            } else {
                assert(r[i] == s[i - 1] && r[j] == s[j - 1]);
            }
        }
    }
}

pub proof fn lemma_map_remove_sorted(s: Seq<AliasView>, k: Seq<char>)
    requires
        keys_sorted(s),
    ensures
        keys_sorted(map_remove(s, k)),
{
    lemma_insert_pos(s, k);
    let p = insert_pos(s, k);
    let r = map_remove(s, k);
    if p < s.len() && s[p].0 == k {
        assert(r == s.remove(p));
        assert forall|i: int, j: int| 0 <= i < j < r.len() implies lex_lt(#[trigger] r[i].0, #[trigger] r[j].0) by {
            if j < p {
                assert(r[i] == s[i] && r[j] == s[j]);
            } else if i < p {
                assert(r[i] == s[i] && r[j] == s[j + 1]);
            } else {
                let tail = s.subrange(p + 1, s.len() as int);
                assert(r == s.subrange(0, p) + tail);
                assert(r[i] == tail[i - p]);
                assert(r[j] == tail[j - p]);
                assert(lex_lt(s[i + 1].0, s[j + 1].0));
            }
        }
    }
}


/// The abstract content of a name/entry pair.
pub open spec fn alias_view(e: (String, HostEntry)) -> AliasView {
    (e.0@, e.1@)
}

/// The alias registry: names bound to host entries, kept in name order
/// with each name at most once (the order of a `BTreeMap<String, _>`).
pub struct HostMap {
    entries: Vec<(String, HostEntry)>,
}

impl View for HostMap {
    type V = Seq<AliasView>;

    closed spec fn view(&self) -> Seq<AliasView> {
        self.entries@.map_values(|e: (String, HostEntry)| alias_view(e))
    }
}

impl HostMap {
    #[verifier::type_invariant]
    spec fn sorted(self) -> bool {
        keys_sorted(self@)
    }

    /// An empty registry.
    pub fn new() -> (m: HostMap)
        ensures
            m@ == Seq::<AliasView>::empty(),
    {
        let m = HostMap { entries: Vec::new() };
        assert(m@ =~= Seq::<AliasView>::empty());
        m
    }

    /// Number of saved aliases.
    pub fn len(&self) -> (n: usize)
        ensures
            n == self@.len(),
            keys_sorted(self@),
    {
        proof {
            use_type_invariant(self);
        }
        self.entries.len()
    }

    /// Whether the registry holds no alias.
    pub fn is_empty(&self) -> (b: bool)
        ensures
            b == (self@.len() == 0),
    {
        self.entries.len() == 0
    }

    /// The name and entry at position `i` in name order.
    pub fn entry_at(&self, i: usize) -> (r: (&String, &HostEntry))
        requires
            i < self@.len(),
        ensures
            (r.0@, r.1@) == self@[i as int],
    {
        let e = &self.entries[i];
        (&e.0, &e.1)
    }

    fn find_pos(&self, key: &[char]) -> (p: usize)
        ensures
            p == insert_pos(self@, key@),
    {
        proof {
            use_type_invariant(self);
        }
        let mut i: usize = 0;
        let n = self.entries.len();
        assert(self@.subrange(0, n as int) =~= self@);
        while i < n
            invariant
                n == self@.len(),
                i <= n,
                insert_pos(self@, key@) == i + insert_pos(self@.subrange(i as int, n as int), key@),
            decreases n - i,
        {
            let k = chars_of(self.entries[i].0.as_str());
            let ghost rest = self@.subrange(i as int, n as int);
            assert(rest[0] == self@[i as int]);
            if !chars_lt(&k, key) {
                return i;
            }
            assert(rest.drop_first() =~= self@.subrange(i + 1, n as int));
            i = i + 1;
        }
        i
    }

    /// The entry bound to exactly `name`, if any.
    pub fn get(&self, name: &str) -> (r: Option<&HostEntry>)
        ensures
            match r {
                Some(e) => map_get(self@, name@) == Some(e@),
                None => map_get(self@, name@) is None,
            },
    {
        let key = chars_of(name);
        let p = self.find_pos(&key);
        if p < self.entries.len() {
            let k = chars_of(self.entries[p].0.as_str());
            if chars_eq(&k, &key) {
                return Some(&self.entries[p].1);
            }
        }
        None
    }

    /// Binds `name` to `entry`, replacing any entry saved under exactly that name.
    pub fn insert(&mut self, name: String, entry: HostEntry)
        ensures
            final(self)@ == map_insert(old(self)@, name@, entry@),
            keys_sorted(final(self)@),
    {
        proof {
            use_type_invariant(&*self);
            lemma_map_insert_sorted(self@, name@, entry@);
        }
        let key = chars_of(name.as_str());
        let p = self.find_pos(&key);
        let ghost old_view = self@;
        proof {
            lemma_insert_pos(old_view, name@);
        }
        let mut entries = Vec::new();
        std::mem::swap(&mut entries, &mut self.entries);
        let ghost old_entries = entries@;
        assert(old_entries.map_values(|e: (String, HostEntry)| alias_view(e)) == old_view);
        let ghost pair = (name, entry);
        assert(alias_view(pair) == (name@, entry@));
        if p < entries.len() && chars_eq(&chars_of(entries[p].0.as_str()), &key) {
            entries.set(p, (name, entry));
            proof {
                assert(entries@.map_values(|e: (String, HostEntry)| alias_view(e)) =~= map_insert(
                    old_entries.map_values(|e: (String, HostEntry)| alias_view(e)), pair.0@, pair.1@));
            }
        } else {
            entries.insert(p, (name, entry));
            proof {
                assert(entries@.map_values(|e: (String, HostEntry)| alias_view(e)) =~= map_insert(
                    old_entries.map_values(|e: (String, HostEntry)| alias_view(e)), pair.0@, pair.1@));
            }
        }
        self.entries = entries;
    }

    /// Removes the entry saved under exactly `name`; true when there was one.
    pub fn remove(&mut self, name: &str) -> (removed: bool)
        ensures
            final(self)@ == map_remove(old(self)@, name@),
            removed == (map_get(old(self)@, name@) is Some),
            keys_sorted(final(self)@),
    {
        proof {
            use_type_invariant(&*self);
            lemma_map_remove_sorted(self@, name@);
        }
        let key = chars_of(name);
        let p = self.find_pos(&key);
        if p < self.entries.len() && chars_eq(&chars_of(self.entries[p].0.as_str()), &key) {
            let mut entries = Vec::new();
            std::mem::swap(&mut entries, &mut self.entries);
            let ghost old_entries = entries@;
            let _ = entries.remove(p);
            proof {
                assert(entries@.map_values(|e: (String, HostEntry)| alias_view(e)) =~= map_remove(
                    old_entries.map_values(|e: (String, HostEntry)| alias_view(e)), name@));
            }
            self.entries = entries;
            true
        } else {
            false
        }
    }

    /// Builds a registry from pairs, later pairs replacing earlier ones with
    /// the same name.
    pub fn from_pairs(pairs: Vec<(String, HostEntry)>) -> (m: HostMap)
        ensures
            m@ == insert_all(Seq::empty(), pairs@.map_values(|e: (String, HostEntry)| alias_view(e))),
    {
        let ghost all = pairs@.map_values(|e: (String, HostEntry)| alias_view(e));
        let mut m = HostMap::new();
        let n: usize = pairs.len();
        let mut rest = pairs;
        assert(all.subrange(0, n as int) =~= all);
        assert(m@ =~= Seq::<AliasView>::empty());
        let mut i: usize = 0;
        while rest.len() > 0
            invariant
                rest@.len() + i == n,
                n == all.len(),
                forall|j: int| 0 <= j < rest@.len() ==> alias_view(#[trigger] rest@[j]) == all[i + j],
                insert_all(Seq::empty(), all) == insert_all(m@, all.subrange(i as int, n as int)),
            decreases rest@.len(),
        {
            let ghost sub = all.subrange(i as int, n as int);
            assert(alias_view(rest@[0]) == all[i as int]);
            let (name, entry) = rest.remove(0);
            assert(sub[0] == all[i as int]);
            assert(sub.drop_first() =~= all.subrange(i + 1, n as int));
            m.insert(name, entry);
            i = i + 1;
            assert forall|j: int| 0 <= j < rest@.len() implies alias_view(#[trigger] rest@[j]) == all[i + j] by {
            }
        }
        assert(all.subrange(n as int, n as int) =~= Seq::<AliasView>::empty());
        m
    }
}

/// Why an alias operation was refused.
#[derive(Debug)]
pub enum AliasError {
    /// The name is empty once surrounding whitespace is removed.
    EmptyName,
    /// The name normalizes like an existing, differently written alias.
    TooSimilar { name: String, existing: String },
    /// A partial name matches several aliases.
    Ambiguous { query: String, matches: Vec<String> },
    /// The address given for a new alias is not an IP address.
    InvalidIp { ip: String },
}

/// `names` joined by `sep`.
pub open spec fn join(names: Seq<Seq<char>>, sep: Seq<char>) -> Seq<char>
    decreases names.len(),
{
    if names.len() == 0 {
        Seq::empty()
    } else if names.len() == 1 {
        names[0]
    } else {
        join(names.drop_last(), sep) + sep + names.last()
    }
}

/// The message of an alias error, as shown to the user.
pub open spec fn alias_error_message(e: AliasError) -> Seq<char> {
    match e {
        AliasError::EmptyName => "Alias name cannot be empty"@,
        AliasError::TooSimilar { name, existing } =>
            "Alias \""@ + name@ + "\" is too similar to existing alias \""@ + existing@
                + "\". Use a more specific name or remove the existing alias first."@,
        AliasError::Ambiguous { query, matches } =>
            "\""@ + query@ + "\" is ambiguous; matches: "@
                + join(matches@.map_values(|m: String| m@), ", "@),
        AliasError::InvalidIp { ip } => "Invalid IP address for alias: \""@ + ip@ + "\""@,
    }
}

/// Joins `names` with `sep`.
pub fn join_strings(names: &Vec<String>, sep: &str) -> (r: String)
    ensures
        r@ == join(names@.map_values(|m: String| m@), sep@),
{
    let ghost views = names@.map_values(|m: String| m@);
    let mut r = String::new();
    let mut i: usize = 0;
    while i < names.len()
        invariant
            i <= names@.len(),
            views == names@.map_values(|m: String| m@),
            r@ == join(views.take(i as int), sep@),
        decreases names@.len() - i,
    {
        let ghost before = views.take(i as int);
        assert(views.take(i + 1).drop_last() =~= before);
        assert(views.take(i + 1).last() == names@[i as int]@);
        if i > 0 {
            r.append(sep);
        } else {
            assert(before =~= Seq::<Seq<char>>::empty());
            assert(r@ =~= Seq::<char>::empty());
        }
        r.append(names[i].as_str());
        i = i + 1;
        proof {
            if i == 1 {
                assert(r@ =~= views.take(1)[0]);
            }
        }
    }
    assert(views.take(names@.len() as int) =~= views);
    r
}

impl AliasError {
    /// The error message shown to the user.
    pub fn message(&self) -> (m: String)
        ensures
            m@ == alias_error_message(*self),
    {
        match self {
            AliasError::EmptyName => String::from_str("Alias name cannot be empty"),
            AliasError::TooSimilar { name, existing } => {
                let mut m = String::from_str("Alias \"");
                m.append(name.as_str());
                m.append("\" is too similar to existing alias \"");
                m.append(existing.as_str());
                m.append("\". Use a more specific name or remove the existing alias first.");
                m
            },
            AliasError::Ambiguous { query, matches } => {
                let mut m = String::from_str("\"");
                m.append(query.as_str());
                m.append("\" is ambiguous; matches: ");
                let j = join_strings(matches, ", ");
                m.append(j.as_str());
                m
            },
            AliasError::InvalidIp { ip } => {
                let mut m = String::from_str("Invalid IP address for alias: \"");
                m.append(ip.as_str());
                m.append("\"");
                m
            },
        }
    }
}

/// Entries whose normalized name equals `needle`, in name order.
pub open spec fn exact_hits(m: Seq<AliasView>, needle: Seq<char>) -> Seq<AliasView> {
    m.filter(|e: AliasView| normalize_spec(e.0) == needle)
}

/// Entries whose normalized name contains `needle`, in name order.
pub open spec fn partial_hits(m: Seq<AliasView>, needle: Seq<char>) -> Seq<AliasView> {
    m.filter(|e: AliasView| contains_seq(normalize_spec(e.0), needle))
}

/// Outcome of a single-alias lookup: the entry of the first alias whose
/// normalized name equals the normalized query; failing that (for a
/// non-empty query) the entry of the one alias whose normalized name
/// contains it, nothing when none does, and the names of all such aliases
/// when several do.
pub open spec fn lookup_spec(m: Seq<AliasView>, name: Seq<char>) -> Result<Option<(Seq<char>, Protocol)>, Seq<Seq<char>>> {
    let needle = normalize_spec(name);
    let exact = exact_hits(m, needle);
    let partial = partial_hits(m, needle);
    if exact.len() > 0 {
        Ok(Some(exact[0].1))
    } else if needle.len() == 0 {
        Ok(None)
    } else if partial.len() == 0 {
        Ok(None)
    } else if partial.len() == 1 {
        Ok(Some(partial[0].1))
    } else {
        Err(partial.map_values(|e: AliasView| e.0))
    }
}

/// Matches of a group lookup: nothing for an empty query, else the aliases
/// whose normalized name equals the normalized query, else those whose
/// normalized name contains it.
pub open spec fn lookup_many_spec(m: Seq<AliasView>, name: Seq<char>) -> Seq<AliasView> {
    let needle = normalize_spec(name);
    if needle.len() == 0 {
        Seq::empty()
    } else if exact_hits(m, needle).len() > 0 {
        exact_hits(m, needle)
    } else {
        partial_hits(m, needle)
    }
}

proof fn lemma_filter_step(s: Seq<AliasView>, i: int, pred: spec_fn(AliasView) -> bool)
    requires
        0 <= i < s.len(),
    ensures
        s.take(i + 1).filter(pred) == if pred(s[i]) {
            s.take(i).filter(pred).push(s[i])
        } else {
            s.take(i).filter(pred)
        },
{
    reveal(Seq::filter);
    assert(s.take(i + 1).drop_last() =~= s.take(i));
    assert(s.take(i + 1).last() == s[i]);
}

/// Pair of the normalized name and the entry at position `i`.
fn normalized_key_at(map: &HostMap, i: usize) -> (r: Vec<char>)
    requires
        i < map@.len(),
    ensures
        r@ == normalize_spec(map@[i as int].0),
{
    let (k, _) = map.entry_at(i);
    let n = normalize(k.as_str());
    chars_of(n.as_str())
}

/// Finds the saved entry for a name or a unique part of one.
///
/// An alias whose normalized name equals the normalized query wins (the
/// first in name order); otherwise a non-empty query must be contained in
/// exactly one normalized alias. Several partial matches are an error that
/// lists them.
pub fn lookup(name: &str, map: &HostMap) -> (r: Result<Option<HostEntry>, AliasError>)
    ensures
        match (r, lookup_spec(map@, name@)) {
            (Ok(Some(e)), Ok(Some(v))) => e@ == v,
            (Ok(None), Ok(None)) => true,
            (Err(AliasError::Ambiguous { query, matches }), Err(names)) =>
                query@ == name@ && matches@.map_values(|m: String| m@) == names,
            _ => false,
        },
{
    let nq = normalize(name);
    let needle = chars_of(nq.as_str());
    let n = map.len();
    let ghost m = map@;
    let ghost pe = |e: AliasView| normalize_spec(e.0) == needle@;
    let mut i: usize = 0;
    while i < n
        invariant
            n == m.len(),
            m == map@,
            i <= n,
            needle@ == normalize_spec(name@),
            pe == (|e: AliasView| normalize_spec(e.0) == needle@),
            m.take(i as int).filter(pe).len() == 0,
        decreases n - i,
    {
        let k = normalized_key_at(map, i);
        proof {
            lemma_filter_step(m, i as int, pe);
        }
        if chars_eq(&k, &needle) {
            let (_, e) = map.entry_at(i);
            proof {
                assert(m.take(i + 1).filter(pe) == seq![m[i as int]]);
                lemma_filter_prefix_first(m, i + 1, pe);
            }
            return Ok(Some(e.duplicate()));
        }
        i = i + 1;
    }
    assert(m.take(n as int) =~= m);
    if needle.len() == 0 {
        return Ok(None);
    }
    let ghost pp = |e: AliasView| contains_seq(normalize_spec(e.0), needle@);
    let mut hits: Vec<usize> = Vec::new();
    let mut j: usize = 0;
    while j < n
        invariant
            n == m.len(),
            m == map@,
            j <= n,
            needle@ == normalize_spec(name@),
            pp == (|e: AliasView| contains_seq(normalize_spec(e.0), needle@)),
            hits@.len() == m.take(j as int).filter(pp).len(),
            forall|t: int| 0 <= t < hits@.len() ==> #[trigger] hits@[t] < n && m[hits@[t] as int] == m.take(j as int).filter(pp)[t],
        decreases n - j,
    {
        let k = normalized_key_at(map, j);
        proof {
            lemma_filter_step(m, j as int, pp);
        }
        let ghost old_hits = hits@;
        if contains_chars(&k, &needle) {
            hits.push(j);
        }
        let ghost jj = j as int;
        j = j + 1;
        proof {
            assert forall|t: int| 0 <= t < hits@.len() implies #[trigger] hits@[t] < n && m[hits@[t] as int] == m.take(j as int).filter(pp)[t] by {
                if t < old_hits.len() {
                    assert(hits@[t] == old_hits[t]);
                    assert(m.take(j as int).filter(pp)[t] == m.take(jj).filter(pp)[t]);
                }
            }
        }
    }
    assert(m.take(n as int) =~= m);
    assert forall|u: int| 0 <= u < hits@.len() implies #[trigger] hits@[u] < n && m[hits@[u] as int] == m.filter(pp)[u] by {
        assert(m.take(j as int).filter(pp)[u] == m.filter(pp)[u]);
    }
    if hits.len() == 0 {
        Ok(None)
    } else if hits.len() == 1 {
        let (_, e) = map.entry_at(hits[0]);
        Ok(Some(e.duplicate()))
    } else {
        let mut names: Vec<String> = Vec::new();
        let mut t: usize = 0;
        while t < hits.len()
            invariant
                t <= hits@.len(),
                hits@.len() == m.filter(pp).len(),
                forall|u: int| 0 <= u < hits@.len() ==> #[trigger] hits@[u] < n && m[hits@[u] as int] == m.filter(pp)[u],
                n == m.len(),
                m == map@,
                names@.map_values(|x: String| x@) == m.filter(pp).map_values(|e: AliasView| e.0).take(t as int),
            decreases hits@.len() - t,
        {
            let (k, _) = map.entry_at(hits[t]);
            let ghost before = names@;
            names.push(k.clone());
            proof {
                let target = m.filter(pp).map_values(|e: AliasView| e.0);
                assert(target[t as int] == m.filter(pp)[t as int].0);
                assert(names@.map_values(|x: String| x@) =~= before.map_values(|x: String| x@).push(k@));
            }
            t = t + 1;
            assert(names@.map_values(|x: String| x@) =~= m.filter(pp).map_values(|e: AliasView| e.0).take(t as int));
        }
        assert(m.filter(pp).map_values(|e: AliasView| e.0).take(t as int) =~= m.filter(pp).map_values(|e: AliasView| e.0));
        Err(AliasError::Ambiguous { query: String::from_str(name), matches: names })
    }
}

proof fn lemma_filter_prefix_first(s: Seq<AliasView>, k: int, pred: spec_fn(AliasView) -> bool)
    requires
        0 <= k <= s.len(),
        s.take(k).filter(pred).len() > 0,
    ensures
        s.filter(pred).len() > 0,
        s.filter(pred)[0] == s.take(k).filter(pred)[0],
    decreases s.len() - k,
{
    if k < s.len() {
        lemma_filter_step(s, k, pred);
        lemma_filter_prefix_first(s, k + 1, pred);
    } else {
        assert(s.take(k) =~= s);
    }
}

/// Finds every alias matching a group query: those whose normalized name
/// equals the normalized query or, when there are none, those whose
/// normalized name contains it. An empty query matches nothing.
pub fn lookup_many(name: &str, map: &HostMap) -> (r: Vec<(String, HostEntry)>)
    ensures
        r@.map_values(|e: (String, HostEntry)| alias_view(e)) == lookup_many_spec(map@, name@),
{
    let nq = normalize(name);
    let needle = chars_of(nq.as_str());
    let ghost m = map@;
    if needle.len() == 0 {
        let r: Vec<(String, HostEntry)> = Vec::new();
        assert(r@.map_values(|e: (String, HostEntry)| alias_view(e)) =~= Seq::<AliasView>::empty());
        return r;
    }
    let ghost pe = |e: AliasView| normalize_spec(e.0) == needle@;
    let ghost pp = |e: AliasView| contains_seq(normalize_spec(e.0), needle@);
    let n = map.len();
    let mut exact: Vec<(String, HostEntry)> = Vec::new();
    let mut partial: Vec<(String, HostEntry)> = Vec::new();
    let mut i: usize = 0;
    while i < n
        invariant
            n == m.len(),
            m == map@,
            i <= n,
            needle@ == normalize_spec(name@),
            pe == (|e: AliasView| normalize_spec(e.0) == needle@),
            pp == (|e: AliasView| contains_seq(normalize_spec(e.0), needle@)),
            exact@.map_values(|e: (String, HostEntry)| alias_view(e)) == m.take(i as int).filter(pe),
            partial@.map_values(|e: (String, HostEntry)| alias_view(e)) == m.take(i as int).filter(pp),
        decreases n - i,
    {
        let k = normalized_key_at(map, i);
        proof {
            lemma_filter_step(m, i as int, pe);
            lemma_filter_step(m, i as int, pp);
        }
        let (key, e) = map.entry_at(i);
        let ghost ex0 = exact@;
        let ghost pa0 = partial@;
        if chars_eq(&k, &needle) {
            exact.push((key.clone(), e.duplicate()));
            assert(exact@.map_values(|e: (String, HostEntry)| alias_view(e)) =~= ex0.map_values(|e: (String, HostEntry)| alias_view(e)).push(m[i as int]));
        }
        if contains_chars(&k, &needle) {
            partial.push((key.clone(), e.duplicate()));
            assert(partial@.map_values(|e: (String, HostEntry)| alias_view(e)) =~= pa0.map_values(|e: (String, HostEntry)| alias_view(e)).push(m[i as int]));
        }
        i = i + 1;
    }
    assert(m.take(n as int) =~= m);
    if exact.len() > 0 {
        exact
    } else {
        partial
    }
}

/// An entry written differently from `name` but normalizing like it.
pub open spec fn collides_with(name: Seq<char>) -> spec_fn(AliasView) -> bool {
    |e: AliasView| normalize_spec(e.0) == normalize_spec(name) && e.0 != name
}

/// The first alias written differently from `name` whose normalized form
/// equals that of `name`.
pub open spec fn collision_spec(m: Seq<AliasView>, name: Seq<char>) -> Option<Seq<char>> {
    let hits = m.filter(collides_with(name));
    if hits.len() > 0 { Some(hits[0].0) } else { None }
}

/// Finds an existing alias that would be confused with `name`: one that is
/// written differently but normalizes to the same form.
pub fn find_normalized_alias_collision(map: &HostMap, name: &str) -> (r: Option<String>)
    ensures
        match r {
            Some(x) => collision_spec(map@, name@) == Some(x@),
            None => collision_spec(map@, name@) is None,
        },
{
    let nq = normalize(name);
    let incoming = chars_of(nq.as_str());
    let raw = chars_of(name);
    let ghost m = map@;
    let ghost pc = collides_with(name@);
    let n = map.len();
    let mut i: usize = 0;
    while i < n
        invariant
            n == m.len(),
            m == map@,
            i <= n,
            incoming@ == normalize_spec(name@),
            raw@ == name@,
            pc == collides_with(name@),
            m.take(i as int).filter(pc).len() == 0,
        decreases n - i,
    {
        let k = normalized_key_at(map, i);
        let (key, _) = map.entry_at(i);
        let kc = chars_of(key.as_str());
        proof {
            lemma_filter_step(m, i as int, pc);
        }
        if chars_eq(&k, &incoming) && !chars_eq(&kc, &raw) {
            proof {
                assert(m.take(i + 1).filter(pc) == seq![m[i as int]]);
                lemma_filter_prefix_first(m, i + 1, pc);
            }
            return Some(key.clone());
        }
        i = i + 1;
    }
    assert(m.take(n as int) =~= m);
    None
}

/// A new alias name with surrounding whitespace removed; an error when
/// nothing is left.
pub fn normalize_alias_name(name: &str) -> (r: Result<String, AliasError>)
    ensures
        match r {
            Ok(t) => trim(name@).len() > 0 && t@ == trim(name@),
            Err(e) => trim(name@).len() == 0 && e == AliasError::EmptyName,
        },
{
    let t = trim_chars(&chars_of(name));
    if t.len() == 0 {
        Err(AliasError::EmptyName)
    } else {
        Ok(string_of(&t))
    }
}

/// The checks a new alias passes before the registry is read: its name,
/// trimmed, must not be empty, and `ip` must be an IP address (`is_ip` is
/// whether it parses as one). Gives the trimmed name.
pub fn check_new_alias(name: &str, ip: &str, is_ip: bool) -> (r: Result<String, AliasError>)
    ensures
        trim(name@).len() == 0 ==> r matches Err(AliasError::EmptyName),
        trim(name@).len() > 0 && !is_ip ==> (r matches Err(AliasError::InvalidIp { ip: x }) && x@ == ip@),
        trim(name@).len() > 0 && is_ip ==> (r matches Ok(t) && t@ == trim(name@)),
{
    let t = match normalize_alias_name(name) {
        Ok(t) => t,
        Err(e) => return Err(e),
    };
    if !is_ip {
        return Err(AliasError::InvalidIp { ip: String::from_str(ip) });
    }
    Ok(t)
}

/// Saves an alias: the name, trimmed, is bound to the address and protocol,
/// unless the name is empty, the address is not an IP address (`is_ip` is
/// whether `ip` parses as one), or the name is too similar to a differently
/// written alias. On every error the registry is left as it was.
pub fn set(map: &mut HostMap, name: &str, ip: &str, is_ip: bool, protocol: Protocol) -> (r: Result<(), AliasError>)
    ensures
        r is Err ==> final(map)@ == old(map)@,
        trim(name@).len() == 0 ==> r matches Err(AliasError::EmptyName),
        trim(name@).len() > 0 && !is_ip ==> (r matches Err(AliasError::InvalidIp { ip: x }) && x@ == ip@),
        trim(name@).len() > 0 && is_ip ==> match collision_spec(old(map)@, trim(name@)) {
            Some(existing) => r matches Err(AliasError::TooSimilar { name: n, existing: x })
                && n@ == trim(name@) && x@ == existing,
            None => r is Ok && final(map)@ == map_insert(old(map)@, trim(name@), (ip@, protocol)),
        },
{
    let t = match check_new_alias(name, ip, is_ip) {
        Ok(t) => t,
        Err(e) => return Err(e),
    };
    if let Some(existing) = find_normalized_alias_collision(map, t.as_str()) {
        return Err(AliasError::TooSimilar { name: t, existing });
    }
    map.insert(t, HostEntry { ip: String::from_str(ip), protocol });
    Ok(())
}

/// Removes the alias saved under exactly `name`; true when there was one.
pub fn remove(map: &mut HostMap, name: &str) -> (removed: bool)
    ensures
        final(map)@ == map_remove(old(map)@, name@),
        removed == (map_get(old(map)@, name@) is Some),
{
    map.remove(name)
}

/// All aliases with their entries, in name order.
pub fn list(map: &HostMap) -> (r: Vec<(String, HostEntry)>)
    ensures
        r@.map_values(|e: (String, HostEntry)| alias_view(e)) == map@,
{
    let n = map.len();
    let mut r: Vec<(String, HostEntry)> = Vec::new();
    let mut i: usize = 0;
    while i < n
        invariant
            n == map@.len(),
            i <= n,
            r@.map_values(|e: (String, HostEntry)| alias_view(e)) == map@.take(i as int),
        decreases n - i,
    {
        let (k, e) = map.entry_at(i);
        let ghost before = r@;
        r.push((k.clone(), e.duplicate()));
        assert(r@.map_values(|e: (String, HostEntry)| alias_view(e)) =~= before.map_values(|e: (String, HostEntry)| alias_view(e)).push(map@[i as int]));
        assert(map@.take(i + 1) =~= map@.take(i as int).push(map@[i as int]));
        i = i + 1;
    }
    assert(map@.take(n as int) =~= map@);
    r
}

/// The first alias (in name order) saved for the address `ip`.
pub open spec fn alias_for_ip(m: Seq<AliasView>, ip: Seq<char>) -> Option<Seq<char>> {
    let hits = m.filter(|e: AliasView| e.1.0 == ip);
    if hits.len() > 0 { Some(hits[0].0) } else { None }
}

/// The alias name saved for an IP address, if any.
pub fn lookup_by_ip_in(ip: &str, map: &HostMap) -> (r: Option<String>)
    ensures
        match r {
            Some(x) => alias_for_ip(map@, ip@) == Some(x@),
            None => alias_for_ip(map@, ip@) is None,
        },
{
    let ipc = chars_of(ip);
    let ghost m = map@;
    let ghost pi = |e: AliasView| e.1.0 == ip@;
    let n = map.len();
    let mut i: usize = 0;
    while i < n
        invariant
            n == m.len(),
            m == map@,
            i <= n,
            ipc@ == ip@,
            pi == (|e: AliasView| e.1.0 == ip@),
            m.take(i as int).filter(pi).len() == 0,
        decreases n - i,
    {
        let (key, e) = map.entry_at(i);
        let ec = chars_of(e.ip.as_str());
        proof {
            lemma_filter_step(m, i as int, pi);
        }
        if chars_eq(&ec, &ipc) {
            proof {
                assert(m.take(i + 1).filter(pi) == seq![m[i as int]]);
                lemma_filter_prefix_first(m, i + 1, pi);
            }
            return Some(key.clone());
        }
        i = i + 1;
    }
    assert(m.take(n as int) =~= m);
    None
}

/// Saves `name` for `ip` (as a Kasa device) when the name is non-empty and
/// no alias is saved for that address yet; true when it was saved.
pub fn save_if_new_in(name: &str, ip: &str, map: &mut HostMap) -> (saved: bool)
    ensures
        saved == (name@.len() > 0 && alias_for_ip(old(map)@, ip@) is None),
        saved ==> final(map)@ == map_insert(old(map)@, name@, (ip@, Protocol::Kasa)),
        !saved ==> final(map)@ == old(map)@,
{
    if chars_of(name).len() == 0 {
        return false;
    }
    if lookup_by_ip_in(ip, map).is_some() {
        return false;
    }
    map.insert(String::from_str(name), HostEntry { ip: String::from_str(ip), protocol: Protocol::Kasa });
    true
}

proof fn lemma_squeeze_skip_front(w: Seq<char>, a: Seq<char>)
    requires
        forall|i: int| 0 <= i < w.len() ==> !is_ascii_alnum(#[trigger] w[i]),
    ensures
        squeeze(w + a, false, false) == squeeze(a, false, false),
    decreases w.len(),
{
    if w.len() > 0 {
        assert((w + a)[0] == w[0]);
        assert((w + a).drop_first() =~= w.drop_first() + a);
        lemma_squeeze_skip_front(w.drop_first(), a);
    } else {
        assert(w + a =~= a);
    }
}

proof fn lemma_squeeze_skip_back(a: Seq<char>, w: Seq<char>, started: bool, pending: bool)
    requires
        forall|i: int| 0 <= i < w.len() ==> !is_ascii_alnum(#[trigger] w[i]),
    ensures
        squeeze(a + w, started, pending) == squeeze(a, started, pending),
    decreases a.len(),
{
    if a.len() > 0 {
        assert((a + w)[0] == a[0]);
        assert((a + w).drop_first() =~= a.drop_first() + w);
        if !is_ascii_alnum(a[0]) {
            lemma_squeeze_skip_back(a.drop_first(), w, started, started);
        } else {
            lemma_squeeze_skip_back(a.drop_first(), w, true, false);
        }
    } else {
        assert(a + w =~= w);
        lemma_squeeze_all_separators(w, started, pending);
    }
}

proof fn lemma_squeeze_all_separators(w: Seq<char>, started: bool, pending: bool)
    requires
        forall|i: int| 0 <= i < w.len() ==> !is_ascii_alnum(#[trigger] w[i]),
    ensures
        squeeze(w, started, pending) == Seq::<char>::empty(),
    decreases w.len(),
{
    if w.len() > 0 {
        assert(!is_ascii_alnum(w[0]));
        assert forall|i: int| 0 <= i < w.drop_first().len() implies !is_ascii_alnum(#[trigger] w.drop_first()[i]) by {
            assert(w.drop_first()[i] == w[i + 1]);
        }
        lemma_squeeze_all_separators(w.drop_first(), started, started);
    }
}

/// Surrounding whitespace does not change a name's normalized form.
pub proof fn lemma_normalize_trim(s: Seq<char>)
    ensures
        normalize_spec(trim(s)) == normalize_spec(s),
{
    lemma_leading_ws_bound(s);
    let lead = leading_ws(s) as int;
    let t0 = trim_start(s);
    assert(s =~= s.subrange(0, lead) + t0);
    assert forall|i: int| 0 <= i < s.subrange(0, lead).len() implies !is_ascii_alnum(#[trigger] s.subrange(0, lead)[i]) by {
        assert(is_unicode_whitespace(s[i]));
    }
    lemma_squeeze_skip_front(s.subrange(0, lead), t0);
    lemma_trailing_ws_bound(t0);
    let keep = t0.len() - trailing_ws(t0);
    assert(t0 =~= trim_end(t0) + t0.subrange(keep, t0.len() as int));
    assert forall|i: int| 0 <= i < t0.subrange(keep, t0.len() as int).len() implies !is_ascii_alnum(#[trigger] t0.subrange(keep, t0.len() as int)[i]) by {
        assert(is_unicode_whitespace(t0[keep + i]));
    }
    lemma_squeeze_skip_back(trim_end(t0), t0.subrange(keep, t0.len() as int), false, false);
}

proof fn lemma_sorted_keys_unique(s: Seq<AliasView>, i: int, j: int)
    requires
        keys_sorted(s),
        0 <= i < s.len(),
        0 <= j < s.len(),
        s[i].0 == s[j].0,
    ensures
        i == j,
{
    if i < j {
        lemma_lex_irreflexive(s[i].0);
    } else if j < i {
        lemma_lex_irreflexive(s[i].0);
    }
}

/// A name bound by `map_insert` is found at its position with its value.
proof fn lemma_map_insert_binds(s: Seq<AliasView>, k: Seq<char>, v: (Seq<char>, Protocol))
    requires
        keys_sorted(s),
    ensures
        ({
            let r = map_insert(s, k, v);
            let p = insert_pos(s, k);
            &&& 0 <= p < r.len()
            &&& r[p] == (k, v)
            &&& forall|j: int| 0 <= j < r.len() && j != p ==> (exists|i: int| 0 <= i < s.len() && #[trigger] r[j] == s[i] && s[i].0 != k)
        }),
{
    lemma_insert_pos(s, k);
    lemma_map_insert_sorted(s, k, v);
    let r = map_insert(s, k, v);
    let p = insert_pos(s, k);
    if p < s.len() && s[p].0 == k {
        assert forall|j: int| 0 <= j < r.len() && j != p implies (exists|i: int| 0 <= i < s.len() && #[trigger] r[j] == s[i] && s[i].0 != k) by {
            assert(r[j] == s[j]);
            if s[j].0 == k {
                lemma_sorted_keys_unique(s, j, p);
            }
        }
    } else {
        assert forall|j: int| 0 <= j < r.len() && j != p implies (exists|i: int| 0 <= i < s.len() && #[trigger] r[j] == s[i] && s[i].0 != k) by {
            if j < p {
                assert(r[j] == s[j]);
                lemma_lex_irreflexive(k);
            } else {
                assert(r[j] == s[j - 1]);
                if s[j - 1].0 == k {
                    if j - 1 > p {
                        assert(lex_lt(s[p].0, s[j - 1].0));
                    }
                }
            }
        }
    }
}

/// Saving an alias and then looking up the name it was saved under yields
/// the saved address and protocol: `set` accepted the name (non-empty once
/// trimmed, and not too similar to another alias) and bound the trimmed name.
pub proof fn law_lookup_after_set(m: Seq<AliasView>, name: Seq<char>, ip: Seq<char>, protocol: Protocol)
    requires
        keys_sorted(m),
        trim(name).len() > 0,
        collision_spec(m, trim(name)) is None,
    ensures
        lookup_spec(map_insert(m, trim(name), (ip, protocol)), name) == Ok::<Option<(Seq<char>, Protocol)>, Seq<Seq<char>>>(Some((ip, protocol))),
{
    let t = trim(name);
    let v = (ip, protocol);
    let r = map_insert(m, t, v);
    let p = insert_pos(m, t);
    lemma_normalize_trim(name);
    lemma_map_insert_binds(m, t, v);
    lemma_map_insert_sorted(m, t, v);
    let needle = normalize_spec(name);
    let pe = |e: AliasView| normalize_spec(e.0) == needle;
    assert(pe(r[p]));
    let pc = collides_with(t);
    let exact = r.filter(pe);
    r.lemma_filter_contains(pe, p);
    assert(exact.contains(r[p]));
    assert(exact.len() > 0);
    assert(exact.contains(exact[0]));
    r.lemma_filter_contains_rev(pe, exact[0]);
    assert(r.contains(exact[0]));
    let q = choose|q: int| 0 <= q < r.len() && r[q] == exact[0];
    assert(pe(exact[0]));
    if q != p {
        let i = choose|i: int| 0 <= i < m.len() && r[q] == m[i] && m[i].0 != t;
        assert(pc(m[i]));
        m.lemma_filter_contains(pc, i);
        assert(m.filter(pc).len() > 0);
        assert(false);
    }
    assert(exact[0] == (t, v));
}

/// Removing an alias leaves its name unbound, and every other name bound
/// as before.
pub proof fn law_get_after_remove(m: Seq<AliasView>, k: Seq<char>, other: Seq<char>)
    requires
        keys_sorted(m),
        other != k,
    ensures
        map_get(map_remove(m, k), k) is None,
        map_get(map_remove(m, k), other) == map_get(m, other),
{
    lemma_map_remove_sorted(m, k);
    lemma_insert_pos(m, k);
    lemma_insert_pos(m, other);
    let r = map_remove(m, k);
    lemma_insert_pos(r, k);
    lemma_insert_pos(r, other);
    let p = insert_pos(m, k);
    assert forall|i: int, j: int| 0 <= i < m.len() && 0 <= j < m.len() && i != j implies m[i].0 != m[j].0 by {
        if i < j {
            assert(lex_lt(m[i].0, m[j].0));
        } else {
            assert(lex_lt(m[j].0, m[i].0));
        }
        lemma_lex_irreflexive(m[i].0);
    }
    if p < m.len() && m[p].0 == k {
        assert(r == m.remove(p));
        let q = insert_pos(r, k);
        if q < r.len() && r[q].0 == k {
            if q < p {
                assert(r[q] == m[q]);
            } else {
                assert(r[q] == m[q + 1]);
            }
        }
        let q2 = insert_pos(r, other);
        let p2 = insert_pos(m, other);
        // `other` sits at the same place among the remaining names.
        if p2 < m.len() && m[p2].0 == other {
            if p2 < p {
                assert(r[p2] == m[p2]);
                assert forall|j: int| 0 <= j < p2 implies lex_lt(#[trigger] r[j].0, other) by {
                    assert(r[j] == m[j]);
                }
                lemma_lex_irreflexive(other);
                if q2 < p2 {
                    assert(lex_lt(r[q2].0, other));
                } else if q2 > p2 {
                    assert(!lex_lt(r[p2].0, other));
                }
                assert(q2 == p2);
            } else {
                assert(p2 > p);
                assert(r[p2 - 1] == m[p2]);
                assert forall|j: int| 0 <= j < p2 - 1 implies lex_lt(#[trigger] r[j].0, other) by {
                    if j < p {
                        assert(r[j] == m[j]);
                    } else {
                        assert(r[j] == m[j + 1]);
                    }
                }
                lemma_lex_irreflexive(other);
                if q2 < p2 - 1 {
                    assert(lex_lt(r[q2].0, other));
                } else if q2 > p2 - 1 {
                    assert(!lex_lt(r[p2 - 1].0, other));
                }
                assert(q2 == p2 - 1);
            }
        } else {
            if q2 < r.len() && r[q2].0 == other {
                if q2 < p {
                    assert(r[q2] == m[q2]);
                    assert(map_get(m, other) is Some) by {
                        lemma_get_at(m, other, q2);
                    }
                } else {
                    assert(r[q2] == m[q2 + 1]);
                    assert(map_get(m, other) is Some) by {
                        lemma_get_at(m, other, q2 + 1);
                    }
                }
            }
        }
    }
}

/// In a sorted registry, a name found at some index is the one `map_get`
/// finds.
proof fn lemma_get_at(m: Seq<AliasView>, k: Seq<char>, i: int)
    requires
        keys_sorted(m),
        0 <= i < m.len(),
        m[i].0 == k,
    ensures
        map_get(m, k) == Some(m[i].1),
{
    lemma_insert_pos(m, k);
    let p = insert_pos(m, k);
    lemma_lex_irreflexive(k);
    if i < p {
        assert(lex_lt(m[i].0, k));
    } else if p < i {
        assert(lex_lt(m[p].0, m[i].0));
        if lex_lt(m[p].0, k) {
        } else {
            lemma_lex_trichotomy(m[p].0, k);
        }
    }
}

/// A normalized name: lower-case ASCII letters and digits in words joined
/// by single spaces, with no space in front (unless `lead` allows one) or
/// at the end.
pub open spec fn is_normal(t: Seq<char>, lead: bool) -> bool {
    &&& forall|i: int| 0 <= i < t.len() ==> (#[trigger] t[i] == ' ' || (is_ascii_alnum(t[i]) && ascii_lower(t[i]) == t[i]))
    &&& forall|i: int| 0 <= i < t.len() - 1 ==> !(#[trigger] t[i] == ' ' && t[i + 1] == ' ')
    &&& (t.len() > 0 ==> t.last() != ' ')
    &&& (t.len() > 0 && t[0] == ' ' ==> lead)
}

proof fn lemma_squeeze_normal(s: Seq<char>, started: bool, pending: bool)
    requires
        pending ==> started,
    ensures
        is_normal(squeeze(s, started, pending), pending || started),
    decreases s.len(),
{
    if s.len() > 0 {
        if !is_ascii_alnum(s[0]) {
            lemma_squeeze_normal(s.drop_first(), started, started);
        } else {
            lemma_squeeze_normal(s.drop_first(), true, false);
            let rest = squeeze(s.drop_first(), true, false);
            let head = (if pending { seq![' '] } else { Seq::<char>::empty() }) + seq![ascii_lower(s[0])];
            let out = head + rest;
            assert(out == squeeze(s, started, pending));
            assert(is_ascii_alnum(ascii_lower(s[0])) && ascii_lower(ascii_lower(s[0])) == ascii_lower(s[0]));
            assert forall|i: int| 0 <= i < out.len() implies (#[trigger] out[i] == ' ' || (is_ascii_alnum(out[i]) && ascii_lower(out[i]) == out[i])) by {
                if i >= head.len() {
                    assert(out[i] == rest[i - head.len()]);
                }
            }
            assert forall|i: int| 0 <= i < out.len() - 1 implies !(#[trigger] out[i] == ' ' && out[i + 1] == ' ') by {
                if i >= head.len() {
                    assert(out[i] == rest[i - head.len()]);
                    assert(out[i + 1] == rest[i + 1 - head.len()]);
                } else if i == head.len() - 1 {
                    assert(out[i] == ascii_lower(s[0]));
                }
            }
            if rest.len() > 0 {
                assert(out.last() == rest.last());
            } else {
                assert(out.last() == ascii_lower(s[0]));
            }
        }
    }
}

proof fn lemma_squeeze_fixes_normal(t: Seq<char>, started: bool)
    requires
        is_normal(t, started),
    ensures
        squeeze(t, started, false) == t,
    decreases t.len(),
{
    if t.len() > 0 {
        let d = t.drop_first();
        assert forall|i: int| 0 <= i < d.len() implies (#[trigger] d[i] == ' ' || (is_ascii_alnum(d[i]) && ascii_lower(d[i]) == d[i])) by {
            assert(d[i] == t[i + 1]);
        }
        assert forall|i: int| 0 <= i < d.len() - 1 implies !(#[trigger] d[i] == ' ' && d[i + 1] == ' ') by {
            assert(d[i] == t[i + 1] && d[i + 1] == t[i + 2]);
        }
        if d.len() > 0 {
            assert(d.last() == t.last());
        }
        if t[0] == ' ' {
            assert(started);
            assert(d.len() > 0);
            assert(d[0] == t[1]);
            assert(d[0] != ' ');
            let dd = d.drop_first();
            assert forall|i: int| 0 <= i < dd.len() implies (#[trigger] dd[i] == ' ' || (is_ascii_alnum(dd[i]) && ascii_lower(dd[i]) == dd[i])) by {
                assert(dd[i] == d[i + 1]);
            }
            assert forall|i: int| 0 <= i < dd.len() - 1 implies !(#[trigger] dd[i] == ' ' && dd[i + 1] == ' ') by {
                assert(dd[i] == d[i + 1] && dd[i + 1] == d[i + 2]);
            }
            if dd.len() > 0 {
                assert(dd.last() == d.last());
            }
            lemma_squeeze_fixes_normal(dd, true);
            assert(squeeze(d, true, true) == seq![' '] + seq![ascii_lower(d[0])] + squeeze(dd, true, false));
            assert(squeeze(t, started, false) == squeeze(d, true, true));
            assert(t =~= seq![' '] + seq![d[0]] + dd);
        } else {
            lemma_squeeze_fixes_normal(d, true);
            assert(t =~= seq![t[0]] + d);
        }
    }
}

/// Normalizing a normalized name changes nothing, so matching normalized
/// aliases against a normalized query is matching the names themselves up
/// to case and punctuation.
pub proof fn law_normalize_idempotent(s: Seq<char>)
    ensures
        normalize_spec(normalize_spec(s)) == normalize_spec(s),
{
    lemma_squeeze_normal(s, false, false);
    lemma_squeeze_fixes_normal(normalize_spec(s), false);
}

} // verus!
