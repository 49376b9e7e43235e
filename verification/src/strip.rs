//! State of TP-Link power strips (HS300, KP303): a system information with
//! a list of outlets. HS300 hardware 2.0 omits the relay state and reports
//! short outlet ids ("00".."05") that need the device id in front.

use vstd::prelude::*;
use crate::fmt::{on_time, on_time_spec};
use crate::plug::{feature_has_energy, feature_lists_energy};
use crate::text::chars_of;

verus! {

/// A power strip as reported by its system information.
#[derive(Debug)]
pub struct Strip {
    pub alias: String,
    pub model: String,
    pub hw_ver: String,
    pub sw_ver: String,
    pub rssi: i32,
    pub relay_state: u8,
    pub feature: Option<String>,
    pub children: Vec<StripChild>,
}

/// One outlet of a power strip.
#[derive(Debug)]
pub struct StripChild {
    pub id: String,
    pub alias: String,
    pub state: u8,
    pub on_time: u64,
}

/// An outlet id that needs the device id in front (at most two bytes of UTF-8).
pub open spec fn is_short_id(id: String) -> bool {
    utf8_len(id@) <= 2
}

/// Bytes that `c` takes in UTF-8.
pub open spec fn utf8_width(c: char) -> nat {
    if (c as u32) < 0x80 { 1 } else if (c as u32) < 0x800 { 2 } else if (c as u32) < 0x10000 { 3 } else { 4 }
}

/// Bytes that `s` takes in UTF-8.
pub open spec fn utf8_len(s: Seq<char>) -> nat
    decreases s.len(),
{
    if s.len() == 0 { 0 } else { utf8_len(s.drop_last()) + utf8_width(s.last()) }
}

proof fn lemma_utf8_len_mono(s: Seq<char>, i: int)
    requires
        0 <= i <= s.len(),
    ensures
        utf8_len(s.take(i)) <= utf8_len(s),
    decreases s.len() - i,
{
    if i < s.len() {
        lemma_utf8_len_mono(s, i + 1);
        assert(s.take(i + 1).drop_last() =~= s.take(i));
    } else {
        assert(s.take(i) =~= s);
    }
}

/// Whether an outlet id takes at most two bytes.
fn short_id(id: &String) -> (b: bool)
    ensures
        b == is_short_id(*id),
{
    let cs = chars_of(id.as_str());
    let mut total: u64 = 0;
    let mut i: usize = 0;
    while i < cs.len()
        invariant
            i <= cs@.len(),
            cs@ == id@,
            total == utf8_len(cs@.take(i as int)),
            total <= 2,
        decreases cs@.len() - i,
    {
        let c = cs[i];
        let w: u64 = if (c as u32) < 0x80 { 1 } else if (c as u32) < 0x800 { 2 } else if (c as u32) < 0x10000 { 3 } else { 4 };
        assert(cs@.take(i + 1).drop_last() =~= cs@.take(i as int));
        if total + w > 2 {
            proof {
                lemma_utf8_len_mono(cs@, i + 1);
                assert(cs@.take(cs@.len() as int) =~= cs@);
            }
            return false;
        }
        total = total + w;
        i = i + 1;
    }
    assert(cs@.take(cs@.len() as int) =~= cs@);
    true
}

impl StripChild {
    /// The outlet is switched on.
    pub fn is_on(&self) -> (b: bool)
        ensures
            b == (self.state == 1),
    {
        self.state == 1
    }

    /// The outlet's on-time as shown: "off" when zero, else a duration.
    pub fn on_time_fmt(&self) -> (s: String)
        ensures
            s@ == on_time_spec(self.on_time as nat),
    {
        on_time(self.on_time)
    }
}

impl Strip {
    /// Some outlet is switched on.
    pub fn is_any_on(&self) -> (b: bool)
        ensures
            b == exists|i: int| 0 <= i < self.children@.len() && #[trigger] self.children@[i].state == 1,
    {
        let mut i: usize = 0;
        while i < self.children.len()
            invariant
                i <= self.children@.len(),
                forall|j: int| 0 <= j < i ==> self.children@[j].state != 1,
            decreases self.children@.len() - i,
        {
            if self.children[i].state == 1 {
                return true;
            }
            i = i + 1;
        }
        false
    }

    /// The strip measures energy (its feature string lists "ENE").
    pub fn has_energy_monitoring(&self) -> (b: bool)
        ensures
            b == feature_has_energy(self.feature),
    {
        feature_lists_energy(&self.feature)
    }
}

/// The outlets after short ids got the device id in front: when some outlet
/// id is short and a device id is known, every short id is prefixed;
/// otherwise the outlets are unchanged.
pub open spec fn expanded_ids(children: Seq<StripChild>, device_id: Option<Seq<char>>) -> Seq<Seq<char>> {
    let needs = exists|i: int| 0 <= i < children.len() && is_short_id(#[trigger] children[i].id);
    Seq::new(children.len(), |i: int|
        if needs && device_id is Some && is_short_id(children[i].id) {
            device_id->0 + children[i].id@
        } else {
            children[i].id@
        })
}

impl Strip {
    /// Puts `device_id` in front of short outlet ids, when any outlet id is
    /// short; full ids are kept as they are.
    pub fn expand_child_ids(&mut self, device_id: Option<&str>)
        ensures
            final(self).children@.len() == old(self).children@.len(),
            forall|i: int| 0 <= i < final(self).children@.len() ==> {
                &&& #[trigger] final(self).children@[i].id@ == expanded_ids(old(self).children@, match device_id { Some(d) => Some(d@), None => None })[i]
                &&& final(self).children@[i].alias == old(self).children@[i].alias
                &&& final(self).children@[i].state == old(self).children@[i].state
                &&& final(self).children@[i].on_time == old(self).children@[i].on_time
            },
            final(self).alias == old(self).alias,
            final(self).model == old(self).model,
            final(self).feature == old(self).feature,
            final(self).relay_state == old(self).relay_state,
    {
        let ghost old_children = self.children@;
        let ghost dv = match device_id { Some(d) => Some(d@), None => None };
        let n = self.children.len();
        let mut needs = false;
        let mut i: usize = 0;
        while i < n
            invariant
                n == self.children@.len(),
                i <= n,
                needs == exists|j: int| 0 <= j < i && is_short_id(#[trigger] self.children@[j].id),
            decreases n - i,
        {
            if short_id(&self.children[i].id) {
                needs = true;
            }
            i = i + 1;
        }
        let d = match device_id {
            Some(d) => d,
            None => {
                assert forall|k: int| 0 <= k < n implies #[trigger] self.children@[k].id@ == expanded_ids(old_children, dv)[k] by {}
                return;
            },
        };
        if !needs {
            assert forall|k: int| 0 <= k < n implies #[trigger] self.children@[k].id@ == expanded_ids(old_children, dv)[k] by {}
            return;
        }
        let mut j: usize = 0;
        while j < n
            invariant
                n == self.children@.len(),
                n == old_children.len(),
                j <= n,
                needs == exists|k: int| 0 <= k < n && is_short_id(#[trigger] old_children[k].id),
                needs,
                dv == Some(d@),
                forall|k: int| 0 <= k < n ==> {
                    &&& #[trigger] self.children@[k].alias == old_children[k].alias
                    &&& self.children@[k].state == old_children[k].state
                    &&& self.children@[k].on_time == old_children[k].on_time
                },
                forall|k: int| 0 <= k < j ==> #[trigger] self.children@[k].id@ == expanded_ids(old_children, dv)[k],
                forall|k: int| j <= k < n ==> #[trigger] self.children@[k].id == old_children[k].id,
                self.alias == old(self).alias,
                self.model == old(self).model,
                self.feature == old(self).feature,
                self.relay_state == old(self).relay_state,
            decreases n - j,
        {
            if short_id(&self.children[j].id) {
                let mut id = String::from_str(d);
                id.append(self.children[j].id.as_str());
                let child = StripChild {
                    id,
                    alias: self.children[j].alias.clone(),
                    state: self.children[j].state,
                    on_time: self.children[j].on_time,
                };
                self.children.set(j, child);
            }
            j = j + 1;
        }
    }
}

} // verus!
