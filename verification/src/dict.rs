//! Dictionary-driven replacements for node data.

use vstd::prelude::*;

use crate::primitive::DataBuff;
use crate::random::Distributions;

verus! {

/// One dictionary rule: replace occurrences of the left-hand bytes by the
/// right-hand bytes.
#[derive(Clone, Debug)]
pub enum DictEntry {
    Replace(Vec<u8>, Vec<u8>),
}

/// Grouped replacement rules.
#[derive(Clone, Debug)]
pub struct CustomDict {
    pub groups: Vec<Vec<DictEntry>>,
}

/// Byte-string equality.
fn bytes_eq(a: &[u8], b: &[u8]) -> (r: bool)
    ensures
        r == (a@ == b@),
{
    if a.len() != b.len() {
        proof {
            assert(a@.len() != b@.len());
        }
        return false;
    }
    let mut i: usize = 0;
    while i < a.len()
        invariant
            i <= a@.len(),
            a@.len() == b@.len(),
            forall|j: int| 0 <= j < i ==> a@[j] == b@[j],
        decreases a@.len() - i,
    {
        if a[i] != b[i] {
            return false;
        }
        i = i + 1;
    }
    proof {
        assert(a@ =~= b@);
    }
    true
}

impl CustomDict {
    /// The empty dictionary.
    pub fn new() -> (r: Self)
        ensures
            r.groups@.len() == 0,
    {
        CustomDict { groups: Vec::new() }
    }

    /// A dictionary over the given rule groups.
    pub fn new_from_groups(groups: Vec<Vec<DictEntry>>) -> (r: Self)
        ensures
            r.groups@ == groups@,
    {
        CustomDict { groups }
    }

    /// Number of rule groups.
    pub fn len(&self) -> (r: usize)
        ensures
            r == self.groups@.len(),
    {
        self.groups.len()
    }

    /// Some dictionary rule's right-hand side exactly matches the pair of
    /// byte strings.
    pub open spec fn has_rule(&self, lhs: Seq<u8>, rhs: Seq<u8>) -> bool {
        exists|g: int, e: int|
            0 <= g < self.groups@.len() && 0 <= e < self.groups@[g]@.len()
                && ((#[trigger] self.groups@[g]@[e]) matches DictEntry::Replace(l, rh) && l@ == lhs
                && rh@ == rhs)
    }

    /// A replacement whose left-hand side equals the whole buffer, if the
    /// dictionary has one; sampled uniformly among the matching rules'
    /// right-hand sides.
    #[verifier::loop_isolation(false)]
    pub fn sample_rhs(&self, buff: &DataBuff, dist: &mut Distributions) -> (r: Option<Vec<u8>>)
        ensures
            final(dist).wf() == old(dist).wf(),
            final(dist).dict == old(dist).dict,
            r matches Some(rhs) ==> self.has_rule(buff@, rhs@),
    {
        let mut matches: Vec<Vec<u8>> = Vec::new();
        let mut g: usize = 0;
        while g < self.groups.len()
            invariant
                g <= self.groups@.len(),
                dist.wf() == old(dist).wf(),
                dist.dict == old(dist).dict,
                forall|j: int|
                    0 <= j < matches@.len() ==> self.has_rule(buff@, (#[trigger] matches@[j])@),
            decreases self.groups@.len() - g,
        {
            let group = &self.groups[g];
            let mut e: usize = 0;
            while e < group.len()
                invariant
                    e <= group@.len(),
                    group == &self.groups@[g as int],
                    g < self.groups@.len(),
                    forall|j: int|
                        0 <= j < matches@.len() ==> self.has_rule(buff@, (#[trigger] matches@[j])@),
                decreases group@.len() - e,
            {
                match &group[e] {
                    DictEntry::Replace(lhs, rhs) => {
                        if bytes_eq(lhs.as_slice(), buff.as_slice()) {
                            matches.push(rhs.clone());
                            proof {
                                assert((self.groups@[g as int]@[e as int]
                                    matches DictEntry::Replace(l, rh) && l@ == buff@ && rh@
                                    == matches@.last()@));
                            }
                        }
                    },
                }
                e = e + 1;
            }
            g = g + 1;
        }
        if matches.len() > 0 {
            let i = dist.gen_range(0, matches.len());
            Some(matches[i].clone())
        } else {
            None
        }
    }

    /// A uniformly sampled rule, if the dictionary is non-empty and the
    /// sampled group has any rule.
    pub fn sample_entry(&self, dist: &mut Distributions) -> (r: Option<&DictEntry>)
        ensures
            final(dist).wf() == old(dist).wf(),
            final(dist).dict == old(dist).dict,
    {
        if self.groups.len() == 0 {
            return None;
        }
        let g = dist.gen_range(0, self.groups.len());
        let group = &self.groups[g];
        if group.len() == 0 {
            return None;
        }
        let e = dist.gen_range(0, group.len());
        Some(&group[e])
    }

    /// A position where `lhs` occurs in the buffer (sampled among the
    /// occurrences), or a random in-bounds position when it occurs nowhere
    /// but fits, or `None` when it does not fit at all.
    pub fn find_pos(&self, buff: &DataBuff, lhs: &[u8], dist: &mut Distributions) -> (r: Option<
        usize,
    >)
        ensures
            r matches Some(p) ==> p + lhs@.len() <= buff@.len(),
            final(dist).wf() == old(dist).wf(),
            final(dist).dict == old(dist).dict,
    {
        if lhs.len() > buff.len() {
            return None;
        }
        if lhs.len() == 0 {
            return Some(0);
        }
        let mut offsets: Vec<usize> = Vec::new();
        let window = lhs.len();
        let end = buff.len() - window;
        let mut i: usize = 0;
        while i <= end
            invariant
                i <= end + 1,
                end + window == buff@.len(),
                1 <= window == lhs@.len(),
                forall|j: int| 0 <= j < offsets@.len() ==> (#[trigger] offsets@[j]) + window
                    <= buff@.len(),
            decreases end + 1 - i,
        {
            let piece = vstd::slice::slice_subrange(buff.as_slice(), i, i + window);
            if bytes_eq(piece, lhs) {
                offsets.push(i);
            }
            i = i + 1;
        }
        if offsets.len() > 0 {
            let k = dist.gen_range(0, offsets.len());
            return Some(offsets[k]);
        }
        Some(dist.gen_range(0, buff.len() - window + 1))
    }

    /// One dictionary-driven mutation of the buffer.  The result says
    /// whether the caller should go on with further mutation.  The buffer's
    /// length and capacity never change.
    pub fn mutate(&self, buff: &mut DataBuff, dist: &mut Distributions) -> (r: bool)
        ensures
            final(buff)@.len() == old(buff)@.len(),
            final(buff).spec_capacity() == old(buff).spec_capacity(),
            final(dist).wf() == old(dist).wf(),
            final(dist).dict == old(dist).dict,
    {
        match self.sample_rhs(buff, dist) {
            Some(rhs) => {
                if dist.gen_bool() {
                    buff.copy_from(rhs.as_slice(), 0);
                    return dist.gen_bool();
                }
            },
            None => {},
        }
        let picked: Option<(Vec<u8>, Vec<u8>)> = match self.sample_entry(dist) {
            Some(entry) => match entry {
                DictEntry::Replace(lhs, rhs) => Some((lhs.clone(), rhs.clone())),
            },
            None => None,
        };
        match picked {
            Some((lhs, rhs)) => {
                match self.find_pos(buff, lhs.as_slice(), dist) {
                    Some(pos) => {
                        buff.copy_from(rhs.as_slice(), pos);
                    },
                    None => {},
                }
                dist.gen_bool()
            },
            None => true,
        }
    }
}

} // verus!
