//! One parsed line of the daemon's device listing: a serial number plus a
//! key-ordered map of attributes.

use vstd::prelude::*;
use crate::text::{
    tokens, pair_of, sorted_insert, sorted_by_key, chars_lt, lemma_chars_lt_trichotomy,
    lemma_chars_lt_trans, lemma_sorted_insert_at, tokenize, split_pair, str_lt,
};

verus! {

/// The entry sequence of a vector of string pairs, as character sequences.
pub open spec fn entry_views(s: Seq<(String, String)>) -> Seq<(Seq<char>, Seq<char>)> {
    s.map_values(|p: (String, String)| (p.0@, p.1@))
}

/// Inserts one attribute into a key-ordered entry vector: a matching key
/// has its value replaced, any other key enters before the first greater
/// one, so insertion order never shows in the result.
pub fn insert_pair(entries: &mut Vec<(String, String)>, key: String, value: String)
    ensures
        entry_views(final(entries)@) == sorted_insert(entry_views(old(entries)@), key@, value@),
        sorted_by_key(entry_views(old(entries)@)) ==> sorted_by_key(entry_views(final(entries)@)),
{
    let ghost es = entry_views(entries@);
    let n = entries.len();
    let mut p: usize = 0;
    while p < n && str_lt(entries[p].0.as_str(), key.as_str())
        invariant
            entries@ == old(entries)@,
            es == entry_views(entries@),
            n == entries@.len(),
            p <= n,
            forall|j: int| 0 <= j < p ==> chars_lt(#[trigger] es[j].0, key@),
        decreases n - p,
    {
        proof {
            assert(es[p as int].0 == entries@[p as int].0@);
        }
        p = p + 1;
    }
    proof {
        assert(p < n ==> es[p as int].0 == entries@[p as int].0@);
    }
    let replace = p < n && entries[p].0 == key;
    if replace {
        entries.remove(p);
        entries.insert(p, (key, value));
    } else {
        entries.insert(p, (key, value));
    }
    proof {
        let k = key@;
        let v = value@;
        lemma_sorted_insert_at(es, k, v, p as int);
        let r = entry_views(entries@);
        if replace {
            assert(r =~= es.take(p as int) + seq![(k, v)] + es.skip(p as int + 1));
        } else {
            assert(r =~= es.take(p as int) + seq![(k, v)] + es.skip(p as int));
        }
        if sorted_by_key(es) {
            assert forall|i: int, j: int| 0 <= i < j < r.len() implies chars_lt(
                r[i].0,
                r[j].0,
            ) by {
                if p < es.len() && !replace {
                    lemma_chars_lt_trichotomy(es[p as int].0, k);
                }
                if i == p && j > p {
                    let jj = if replace {
                        j
                    } else {
                        j - 1
                    };
                    if !replace && jj > p {
                        lemma_chars_lt_trans(k, es[p as int].0, es[jj].0);
                    }
                }
            }
        }
    }
}

/// One device of the daemon's listing: its serial number and its reported
/// attributes, held strictly ordered by key.
#[derive(Debug)]
pub struct AdbDeviceInfo {
    serial_number: String,
    info: Vec<(String, String)>,
}

/// The mathematical value of an [`AdbDeviceInfo`]: the serial and the
/// key-ordered attribute entries, as character sequences.
pub struct DeviceInfoView {
    pub serial: Seq<char>,
    pub attrs: Seq<(Seq<char>, Seq<char>)>,
}

impl View for AdbDeviceInfo {
    type V = DeviceInfoView;

    closed spec fn view(&self) -> DeviceInfoView {
        DeviceInfoView { serial: self.serial_number@, attrs: entry_views(self.info@) }
    }
}

/// The attribute entries collected from a pair sequence, in order, each
/// inserted by key.
pub open spec fn collect_pairs(
    ps: Seq<(Seq<char>, Seq<char>)>,
    acc: Seq<(Seq<char>, Seq<char>)>,
) -> Seq<(Seq<char>, Seq<char>)>
    decreases ps.len(),
{
    if ps.len() == 0 {
        acc
    } else {
        collect_pairs(ps.drop_first(), sorted_insert(acc, ps[0].0, ps[0].1))
    }
}

/// The attribute entries read off a token sequence: tokens holding exactly
/// one colon are split and inserted by key, every other token is dropped.
pub open spec fn attrs_fold(
    toks: Seq<Seq<char>>,
    acc: Seq<(Seq<char>, Seq<char>)>,
) -> Seq<(Seq<char>, Seq<char>)>
    decreases toks.len(),
{
    if toks.len() == 0 {
        acc
    } else {
        let acc2 = match pair_of(toks[0]) {
            Some(kv) => sorted_insert(acc, kv.0, kv.1),
            None => acc,
        };
        attrs_fold(toks.drop_first(), acc2)
    }
}

/// The record one listing line parses to: the first token is the serial,
/// the second must be exactly `device` — any other state discards the whole
/// line — and the remaining tokens are attribute candidates.
pub open spec fn spec_parse_info(s: Seq<char>) -> Option<DeviceInfoView> {
    let toks = tokens(s);
    if toks.len() >= 2 && toks[1] == "device"@ {
        Some(
            DeviceInfoView { serial: toks[0], attrs: attrs_fold(toks.skip(2), Seq::empty()) },
        )
    } else {
        None
    }
}

impl AdbDeviceInfo {
    /// Whether the attribute entries are strictly ordered by key, as every
    /// record this module builds is.
    pub open spec fn wf(&self) -> bool {
        sorted_by_key(self@.attrs)
    }

    /// Builds a record from a serial and attribute pairs; the pairs are
    /// entered by key, a repeated key keeping its last value.
    pub fn new(serial_number: String, info: Vec<(String, String)>) -> (r: AdbDeviceInfo)
        ensures
            r@.serial == serial_number@,
            r@.attrs == collect_pairs(entry_views(info@), Seq::empty()),
            r.wf(),
    {
        let ghost ps = entry_views(info@);
        let mut entries: Vec<(String, String)> = Vec::new();
        let mut i: usize = 0;
        proof {
            assert(entry_views(entries@) =~= Seq::<(Seq<char>, Seq<char>)>::empty());
            assert(ps.skip(0) =~= ps);
        }
        while i < info.len()
            invariant
                i <= info@.len(),
                ps == entry_views(info@),
                collect_pairs(ps, Seq::empty()) == collect_pairs(
                    ps.skip(i as int),
                    entry_views(entries@),
                ),
                sorted_by_key(entry_views(entries@)),
            decreases info@.len() - i,
        {
            let ghost acc = entry_views(entries@);
            let key = info[i].0.clone();
            let value = info[i].1.clone();
            proof {
                assert(ps[i as int] == (info@[i as int].0@, info@[i as int].1@));
                assert(ps.skip(i as int)[0] == ps[i as int]);
                assert(ps.skip(i as int).drop_first() =~= ps.skip(i as int + 1));
            }
            insert_pair(&mut entries, key, value);
            i = i + 1;
        }
        proof {
            assert(ps.skip(info@.len() as int) =~= Seq::<(Seq<char>, Seq<char>)>::empty());
        }
        AdbDeviceInfo { serial_number, info: entries }
    }

    /// Parses one listing line.  `Some` exactly when the line's second
    /// whitespace-separated token is `device`; every other state token, or
    /// its absence, silently discards the line.
    pub fn parse_info(string: &str) -> (r: Option<AdbDeviceInfo>)
        ensures
            spec_parse_info(string@) matches Some(dv) ==> (r matches Some(d) && d@ == dv
                && d.wf()),
            spec_parse_info(string@) is None ==> r is None,
    {
        let toks = tokenize(string);
        let ghost tv = toks@.map_values(|t: String| t@);
        if toks.len() < 2 {
            return None;
        }
        let device_state = String::from_str("device");
        if !(toks[1] == device_state) {
            proof {
                assert(tv[1] == toks@[1]@);
            }
            return None;
        }
        proof {
            assert(tv[1] == toks@[1]@);
            assert(tv[0] == toks@[0]@);
        }
        let serial_number = toks[0].clone();
        let mut entries: Vec<(String, String)> = Vec::new();
        let mut i: usize = 2;
        proof {
            assert(entry_views(entries@) =~= Seq::<(Seq<char>, Seq<char>)>::empty());
            assert(tv.skip(2).skip(0) =~= tv.skip(2));
        }
        while i < toks.len()
            invariant
                2 <= i <= toks@.len(),
                tv == toks@.map_values(|t: String| t@),
                attrs_fold(tv.skip(2), Seq::empty()) == attrs_fold(
                    tv.skip(i as int),
                    entry_views(entries@),
                ),
                sorted_by_key(entry_views(entries@)),
            decreases toks@.len() - i,
        {
            proof {
                assert(tv.skip(i as int)[0] == tv[i as int]);
                assert(tv[i as int] == toks@[i as int]@);
                assert(tv.skip(i as int).drop_first() =~= tv.skip(i as int + 1));
            }
            match split_pair(toks[i].as_str()) {
                Some(kv) => {
                    insert_pair(&mut entries, kv.0, kv.1);
                },
                None => {},
            }
            i = i + 1;
        }
        proof {
            assert(tv.skip(toks@.len() as int) =~= Seq::<Seq<char>>::empty());
        }
        Some(AdbDeviceInfo { serial_number, info: entries })
    }

    /// The device's serial number.
    pub fn get_serial_number(&self) -> (r: String)
        ensures
            r@ == self@.serial,
    {
        self.serial_number.clone()
    }

    /// The device's attributes, as key/value pairs strictly ordered by key.
    pub fn get_info(&self) -> (r: Vec<(String, String)>)
        ensures
            entry_views(r@) == self@.attrs,
    {
        let mut r: Vec<(String, String)> = Vec::new();
        let mut i: usize = 0;
        proof {
            assert(entry_views(r@) =~= self@.attrs.take(0));
        }
        while i < self.info.len()
            invariant
                i <= self.info@.len(),
                entry_views(self.info@) == self@.attrs,
                entry_views(r@) == self@.attrs.take(i as int),
            decreases self.info@.len() - i,
        {
            let ghost before = entry_views(r@);
            r.push((self.info[i].0.clone(), self.info[i].1.clone()));
            proof {
                assert(entry_views(r@) =~= before.push(
                    (self.info@[i as int].0@, self.info@[i as int].1@),
                ));
                assert(self@.attrs.take(i as int + 1) =~= self@.attrs.take(i as int).push(
                    self@.attrs[i as int],
                ));
            }
            i = i + 1;
        }
        proof {
            assert(self@.attrs.take(self.info@.len() as int) =~= self@.attrs);
        }
        r
    }
}

impl PartialEq for AdbDeviceInfo {
    /// Two records are equal exactly when their serials and their attribute
    /// entries are.
    fn eq(&self, other: &Self) -> (r: bool) {
        if !(self.serial_number == other.serial_number) {
            return false;
        }
        if self.info.len() != other.info.len() {
            proof {
                assert(self@.attrs.len() == self.info@.len());
                assert(other@.attrs.len() == other.info@.len());
            }
            return false;
        }
        let mut i: usize = 0;
        while i < self.info.len()
            invariant
                i <= self.info@.len(),
                self.info@.len() == other.info@.len(),
                self.serial_number@ == other.serial_number@,
                forall|j: int| 0 <= j < i ==> ((#[trigger] self.info@[j]).0@ == other.info@[j].0@
                    && self.info@[j].1@ == other.info@[j].1@),
            decreases self.info@.len() - i,
        {
            let same_key = self.info[i].0 == other.info[i].0;
            if !same_key {
                proof {
                    assert(self@.attrs[i as int].0 == self.info@[i as int].0@);
                    assert(other@.attrs[i as int].0 == other.info@[i as int].0@);
                }
                return false;
            }
            let same_value = self.info[i].1 == other.info[i].1;
            if !same_value {
                proof {
                    assert(self@.attrs[i as int].1 == self.info@[i as int].1@);
                    assert(other@.attrs[i as int].1 == other.info@[i as int].1@);
                }
                return false;
            }
            proof {
                assert(self.info@[i as int].0@ == other.info@[i as int].0@);
                assert(self.info@[i as int].1@ == other.info@[i as int].1@);
            }
            i = i + 1;
        }
        proof {
            assert(self@.attrs =~= other@.attrs);
        }
        true
    }
}

impl vstd::std_specs::cmp::PartialEqSpecImpl for AdbDeviceInfo {
    open spec fn obeys_eq_spec() -> bool {
        true
    }

    open spec fn eq_spec(&self, other: &AdbDeviceInfo) -> bool {
        self@ == other@
    }
}

} // verus!
