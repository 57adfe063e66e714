use std::collections::HashMap;

use vstd::prelude::*;

verus! {

/// The part of an actor's claims that the engine keeps.
#[derive(Debug, Clone)]
pub struct Claims {
    pub name: String,
    pub capabilities: Vec<String>,
    pub issuer: String,
}

/// The abstract value of a `Claims`.
pub ghost struct ClaimsView {
    pub name: Seq<char>,
    pub capabilities: Seq<Seq<char>>,
    pub issuer: Seq<char>,
}

impl View for Claims {
    type V = ClaimsView;

    open spec fn view(&self) -> ClaimsView {
        ClaimsView {
            name: self.name@,
            capabilities: self.capabilities@.map_values(|c: String| c@),
            issuer: self.issuer@,
        }
    }
}

/// A failure of a claims lookup.
#[derive(Debug)]
pub struct SourceError {
    pub reason: String,
}

/// Anything that can fetch the claims of the actors of a lattice, keyed by
/// actor id.
pub trait ClaimsSource {
    fn get_claims(&self) -> Result<HashMap<String, Claims>, SourceError>;
}

/// What a host reports it is running.
#[derive(Debug, Clone)]
pub struct HostInventory {
    pub host_id: String,
    pub labels: Vec<(String, String)>,
    pub actors: Vec<String>,
    pub providers: Vec<String>,
}

/// Anything that can fetch the inventory of a host. Callers treat a failure as
/// non-fatal and go on with what they knew.
pub trait InventorySource {
    fn get_inventory(&self, host_id: &str) -> Result<HostInventory, SourceError>;
}

/// The value stored under `key` in a list of key/value entries (the first
/// one, should a key repeat).
pub open spec fn lookup_spec(entries: Seq<(String, String)>, key: Seq<char>) -> Option<Seq<char>>
    decreases entries.len(),
{
    if entries.len() == 0 {
        None
    } else if entries[0].0@ == key {
        Some(entries[0].1@)
    } else {
        lookup_spec(entries.drop_first(), key)
    }
}

/// `s` cut at every `sep`: the pieces between separators, in order, empty ones
/// included; a string without a separator is one piece, itself.
pub open spec fn split_on(s: Seq<char>, sep: char) -> Seq<Seq<char>>
    decreases s.len(),
{
    if s.len() == 0 {
        seq![Seq::empty()]
    } else {
        let parts = split_on(s.drop_last(), sep);
        if s.last() == sep {
            parts.push(Seq::empty())
        } else {
            parts.update(parts.len() - 1, parts.last().push(s.last()))
        }
    }
}

/// A value that may be missing, read as empty when it is.
pub open spec fn or_empty(v: Option<Seq<char>>) -> Seq<char> {
    match v {
        Some(s) => s,
        None => Seq::empty(),
    }
}

/// The actor id and claims that one raw claims record gives: none without a
/// subject; a missing name or issuer reads as empty, missing capabilities as
/// none, and the capabilities are the comma-separated pieces of `caps`.
pub open spec fn claim_entry(entries: Seq<(String, String)>) -> Option<(Seq<char>, ClaimsView)> {
    match lookup_spec(entries, "sub"@) {
        None => None,
        Some(subject) => Some(
            (
                subject,
                ClaimsView {
                    name: or_empty(lookup_spec(entries, "name"@)),
                    capabilities: match lookup_spec(entries, "caps"@) {
                        Some(caps) => split_on(caps, ','),
                        None => Seq::empty(),
                    },
                    issuer: or_empty(lookup_spec(entries, "iss"@)),
                },
            ),
        ),
    }
}

/// The entries that a list of raw claims records gives, in order, skipping
/// the records without a subject.
pub open spec fn claims_of(raw: Seq<Vec<(String, String)>>) -> Seq<(Seq<char>, ClaimsView)>
    decreases raw.len(),
{
    if raw.len() == 0 {
        Seq::empty()
    } else {
        let rest = claims_of(raw.drop_last());
        match claim_entry(raw.last()@) {
            Some(e) => rest.push(e),
            None => rest,
        }
    }
}

proof fn lemma_split_nonempty(s: Seq<char>, sep: char)
    ensures
        split_on(s, sep).len() >= 1,
    decreases s.len(),
{
    if s.len() > 0 {
        lemma_split_nonempty(s.drop_last(), sep);
    }
}

/// The value stored under `key`.
pub fn lookup(entries: &Vec<(String, String)>, key: &String) -> (r: Option<String>)
    ensures
        r matches Some(v) ==> lookup_spec(entries@, key@) == Some(v@),
        r is None ==> lookup_spec(entries@, key@) is None,
{
    let mut i: usize = 0;
    assert(entries@.skip(0) =~= entries@);
    while i < entries.len()
        invariant
            i <= entries@.len(),
            lookup_spec(entries@, key@) == lookup_spec(entries@.skip(i as int), key@),
        decreases entries@.len() - i,
    {
        assert(entries@.skip(i as int).drop_first() =~= entries@.skip(i + 1));
        if entries[i].0 == *key {
            return Some(entries[i].1.clone());
        }
        i = i + 1;
    }
    None
}

/// Cuts `raw` at every comma.
pub fn split_commas(raw: &str) -> (r: Vec<String>)
    ensures
        r@.map_values(|p: String| p@) == split_on(raw@, ','),
{
    let n = raw.unicode_len();
    let mut done: Vec<String> = Vec::new();
    let mut start: usize = 0;
    let mut i: usize = 0;
    assert(raw@.take(0) =~= Seq::<char>::empty());
    assert(done@.map_values(|p: String| p@).push(raw@.subrange(0, 0)) =~= seq![Seq::<char>::empty()]);
    while i < n
        invariant
            n == raw@.len(),
            start <= i <= n,
            done@.map_values(|p: String| p@).push(raw@.subrange(start as int, i as int))
                == split_on(raw@.take(i as int), ','),
        decreases n - i,
    {
        let c = raw.get_char(i);
        let ghost prev = split_on(raw@.take(i as int), ',');
        proof {
            assert(raw@.take(i + 1).drop_last() =~= raw@.take(i as int));
            assert(raw@.take(i + 1).last() == c);
            lemma_split_nonempty(raw@.take(i as int), ',');
        }
        if c == ',' {
            let piece = raw.substring_char(start, i).to_owned();
            let ghost old_done = done@.map_values(|p: String| p@);
            assert(piece@ == raw@.subrange(start as int, i as int));
            done.push(piece);
            assert(done@.map_values(|p: String| p@) =~= old_done.push(piece@));
            start = i + 1;
            assert(raw@.subrange(start as int, (i + 1) as int) =~= Seq::<char>::empty());
            assert(done@.map_values(|p: String| p@).push(raw@.subrange(start as int, (i + 1) as int))
                =~= prev.push(Seq::empty()));
        } else {
            assert(raw@.subrange(start as int, i + 1) =~= raw@.subrange(start as int, i as int).push(c));
            assert(done@.map_values(|p: String| p@).push(raw@.subrange(start as int, i + 1))
                =~= prev.update(prev.len() - 1, prev.last().push(c)));
        }
        i = i + 1;
    }
    let last = raw.substring_char(start, n).to_owned();
    done.push(last);
    assert(raw@.take(n as int) =~= raw@);
    assert(done@.map_values(|p: String| p@) =~= split_on(raw@, ','));
    done
}

/// The actor id and claims of one raw claims record, `None` when it has no
/// subject.
pub fn claim_from_raw(entries: &Vec<(String, String)>) -> (r: Option<(String, Claims)>)
    ensures
        match r {
            Some((id, c)) => claim_entry(entries@) == Some((id@, c@)),
            None => claim_entry(entries@) is None,
        },
{
    let sub_key = "sub".to_owned();
    let subject = match lookup(entries, &sub_key) {
        Some(s) => s,
        None => return None,
    };
    let name_key = "name".to_owned();
    let name = match lookup(entries, &name_key) {
        Some(s) => s,
        None => String::new(),
    };
    let caps_key = "caps".to_owned();
    let capabilities = match lookup(entries, &caps_key) {
        Some(s) => split_commas(s.as_str()),
        None => Vec::new(),
    };
    let iss_key = "iss".to_owned();
    let issuer = match lookup(entries, &iss_key) {
        Some(s) => s,
        None => String::new(),
    };
    let c = Claims { name, capabilities, issuer };
    assert(c@.capabilities =~= (match lookup_spec(entries@, "caps"@) {
        Some(caps) => split_on(caps, ','),
        None => Seq::empty(),
    }));
    Some((subject, c))
}

/// The claims keyed by actor id that a list of entries gives, a later entry
/// for an id replacing an earlier one.
pub open spec fn entries_map(s: Seq<(Seq<char>, ClaimsView)>) -> Map<Seq<char>, ClaimsView>
    decreases s.len(),
{
    if s.len() == 0 {
        Map::empty()
    } else {
        entries_map(s.drop_last()).insert(s.last().0, s.last().1)
    }
}

/// The claims keyed by actor id that a list of raw claims records gives: the
/// records without a subject are skipped, and of two records with the same
/// subject the later one wins.
pub open spec fn claims_map(raw: Seq<Vec<(String, String)>>) -> Map<Seq<char>, ClaimsView> {
    entries_map(claims_of(raw))
}

/// No actor id appears twice.
pub open spec fn ids_unique(s: Seq<(Seq<char>, ClaimsView)>) -> bool {
    forall|a: int, b: int| 0 <= a < b < s.len() ==> s[a].0 != s[b].0
}

proof fn lemma_replace_entry(s: Seq<(Seq<char>, ClaimsView)>, j: int, c: ClaimsView)
    requires
        ids_unique(s),
        0 <= j < s.len(),
    ensures
        entries_map(s.update(j, (s[j].0, c))) == entries_map(s).insert(s[j].0, c),
    decreases s.len(),
{
    let k = s[j].0;
    let u = s.update(j, (k, c));
    if j == s.len() - 1 {
        assert(u.drop_last() =~= s.drop_last());
        assert(entries_map(u) =~= entries_map(s).insert(k, c));
    } else {
        assert(u.drop_last() =~= s.drop_last().update(j, (k, c)));
        lemma_replace_entry(s.drop_last(), j, c);
        assert(s.last().0 != k);
        assert(entries_map(u) =~= entries_map(s).insert(k, c));
    }
}

/// The claims of a list of raw claims records, one entry per actor id, in the
/// order the ids first appear. Records without a subject are skipped; of two
/// records with the same subject the later one wins.
pub fn claims_from_raw(raw: &Vec<Vec<(String, String)>>) -> (r: Vec<(String, Claims)>)
    ensures
        ids_unique(r@.map_values(|e: (String, Claims)| (e.0@, e.1@))),
        entries_map(r@.map_values(|e: (String, Claims)| (e.0@, e.1@))) == claims_map(raw@),
{
    let mut r: Vec<(String, Claims)> = Vec::new();
    let mut i: usize = 0;
    assert(raw@.take(0) =~= Seq::<Vec<(String, String)>>::empty());
    assert(r@.map_values(|e: (String, Claims)| (e.0@, e.1@)) =~= Seq::<(Seq<char>, ClaimsView)>::empty());
    while i < raw.len()
        invariant
            i <= raw@.len(),
            ids_unique(r@.map_values(|e: (String, Claims)| (e.0@, e.1@))),
            entries_map(r@.map_values(|e: (String, Claims)| (e.0@, e.1@))) == entries_map(
                claims_of(raw@.take(i as int)),
            ),
        decreases raw@.len() - i,
    {
        proof {
            assert(raw@.take(i + 1).drop_last() =~= raw@.take(i as int));
        }
        match claim_from_raw(&raw[i]) {
            Some(e) => {
                let ghost v = r@.map_values(|e: (String, Claims)| (e.0@, e.1@));
                let ghost k = e.0@;
                let ghost c = e.1@;
                assert(claims_of(raw@.take(i + 1)) == claims_of(raw@.take(i as int)).push((k, c)));
                assert(claims_of(raw@.take(i as int)).push((k, c)).drop_last() =~= claims_of(
                    raw@.take(i as int),
                ));
                let mut j: usize = 0;
                let mut found = false;
                while j < r.len() && !found
                    invariant
                        j <= r@.len(),
                        v == r@.map_values(|e: (String, Claims)| (e.0@, e.1@)),
                        k == e.0@,
                        found ==> j < r@.len() && v[j as int].0 == k,
                        forall|m: int| 0 <= m < j ==> v[m].0 != k,
                    decreases r@.len() - j + (if found { 0int } else { 1int }),
                {
                    if r[j].0 == e.0 {
                        found = true;
                    } else {
                        j = j + 1;
                    }
                }
                if found {
                    assert(v[j as int].0 == k);
                    r.set(j, e);
                    proof {
                        assert(r@.map_values(|e: (String, Claims)| (e.0@, e.1@)) =~= v.update(
                            j as int,
                            (v[j as int].0, c),
                        ));
                        lemma_replace_entry(v, j as int, c);
                        let w = v.update(j as int, (v[j as int].0, c));
                        assert forall|a: int, b: int| 0 <= a < b < w.len() implies w[a].0 != w[b].0 by {
                            assert(v[a].0 == w[a].0 && v[b].0 == w[b].0);
                        }
                    }
                } else {
                    r.push(e);
                    proof {
                        let w = r@.map_values(|e: (String, Claims)| (e.0@, e.1@));
                        assert(w =~= v.push((k, c)));
                        assert(w.drop_last() =~= v);
                        assert forall|a: int, b: int| 0 <= a < b < w.len() implies w[a].0 != w[b].0 by {
                            if b == w.len() - 1 {
                                assert(v[a].0 != k);
                            } else {
                                assert(v[a].0 == w[a].0 && v[b].0 == w[b].0);
                            }
                        }
                    }
                }
            },
            None => {},
        }
        i = i + 1;
    }
    assert(raw@.take(i as int) =~= raw@);
    r
}

} // verus!
