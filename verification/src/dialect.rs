//! The protocol revisions that can be negotiated, and the choice among them.

use crate::error::NegotiateError;
use core::cmp::Ordering;
use vstd::prelude::*;
use vstd::std_specs::cmp::PartialOrdSpecImpl;
use vstd::std_specs::convert::TryFromSpecImpl;

verus! {

/// A protocol revision. The variants stand in the order of their wire codes,
/// which is the order of preference: a higher code is a newer revision.
#[allow(non_camel_case_types)]
#[derive(Clone, Copy, Debug, PartialEq, Eq, Structural, Ord, Hash)]
pub enum SMBDialect {
    /// SMB 2.0.2, code `0x0202`.
    V2_0_2,
    /// SMB 2.1, code `0x0210`.
    V2_1_0,
    /// The wildcard for any revision 2, code `0x02FF`.
    V2_X_X,
    /// SMB 3.0, code `0x0300`.
    V3_0_0,
    /// SMB 3.0.2, code `0x0302`.
    V3_0_2,
    /// SMB 3.1.1, code `0x0311`: the newest revision.
    V3_1_1,
}

/// The revision that a wire code names, if any.
pub open spec fn dialect_of(code: u16) -> Option<SMBDialect> {
    if code == 0x0202 {
        Some(SMBDialect::V2_0_2)
    } else if code == 0x0210 {
        Some(SMBDialect::V2_1_0)
    } else if code == 0x02ff {
        Some(SMBDialect::V2_X_X)
    } else if code == 0x0300 {
        Some(SMBDialect::V3_0_0)
    } else if code == 0x0302 {
        Some(SMBDialect::V3_0_2)
    } else if code == 0x0311 {
        Some(SMBDialect::V3_1_1)
    } else {
        None
    }
}

/// The known revisions among a list of wire codes, in the order of the list.
pub open spec fn recognized(codes: Seq<u16>) -> Seq<SMBDialect>
    decreases codes.len(),
{
    if codes.len() == 0 {
        Seq::empty()
    } else {
        match dialect_of(codes.last()) {
            Some(d) => recognized(codes.drop_last()).push(d),
            None => recognized(codes.drop_last()),
        }
    }
}

/// The revision with the greatest wire code among `dialects`, if there is any.
pub open spec fn newest(dialects: Seq<SMBDialect>) -> Option<SMBDialect>
    decreases dialects.len(),
{
    if dialects.len() == 0 {
        None
    } else {
        match newest(dialects.drop_last()) {
            None => Some(dialects.last()),
            Some(m) => if m.code() < dialects.last().code() {
                Some(dialects.last())
            } else {
                Some(m)
            },
        }
    }
}

/// Whether a list of revisions stands in ascending order of wire codes.
pub open spec fn is_ascending(dialects: Seq<SMBDialect>) -> bool {
    forall|i: int, j: int|
        0 <= i <= j < dialects.len() ==> dialects[i].code() <= dialects[j].code()
}

impl SMBDialect {
    /// The 16-bit code that stands for the revision on the wire.
    pub open spec fn spec_code(self) -> u16 {
        match self {
            SMBDialect::V2_0_2 => 0x0202,
            SMBDialect::V2_1_0 => 0x0210,
            SMBDialect::V2_X_X => 0x02ff,
            SMBDialect::V3_0_0 => 0x0300,
            SMBDialect::V3_0_2 => 0x0302,
            SMBDialect::V3_1_1 => 0x0311,
        }
    }

    /// The 16-bit code that stands for the revision on the wire.
    #[verifier::when_used_as_spec(spec_code)]
    pub fn code(self) -> (r: u16)
        ensures
            r == self.spec_code(),
    {
        match self {
            SMBDialect::V2_0_2 => 0x0202,
            SMBDialect::V2_1_0 => 0x0210,
            SMBDialect::V2_X_X => 0x02ff,
            SMBDialect::V3_0_0 => 0x0300,
            SMBDialect::V3_0_2 => 0x0302,
            SMBDialect::V3_1_1 => 0x0311,
        }
    }

    /// Picks the negotiated revision: the one with the greatest code, which
    /// is the last of the sorted offer. An empty offer has no common
    /// revision.
    pub fn select(dialects: &[SMBDialect]) -> (r: Result<SMBDialect, NegotiateError>)
        ensures
            r == match newest(dialects@) {
                Some(d) => Ok::<SMBDialect, NegotiateError>(d),
                None => Err::<SMBDialect, NegotiateError>(NegotiateError::NoCommonDialect),
            },
            r is Err <==> dialects@.len() == 0,
    {
        let sorted = SMBDialect::sorted(dialects);
        proof {
            lemma_last_of_sorted_is_newest(dialects@, sorted@);
        }
        match sorted.as_slice().last() {
            Some(d) => Ok(*d),
            None => Err(NegotiateError::NoCommonDialect),
        }
    }

    /// The revisions of a list in ascending order of wire codes: the same
    /// revisions, each as often as before, the newest one last.
    pub fn sorted(dialects: &[SMBDialect]) -> (r: Vec<SMBDialect>)
        ensures
            is_ascending(r@),
            r@.to_multiset() == dialects@.to_multiset(),
    {
        let mut out: Vec<SMBDialect> = Vec::new();
        let mut i: usize = 0;
        assert(dialects@.subrange(0, 0) =~= out@);
        while i < dialects.len()
            invariant
                i <= dialects@.len(),
                is_ascending(out@),
                out@.to_multiset() == dialects@.subrange(0, i as int).to_multiset(),
            decreases dialects@.len() - i,
        {
            let d = dialects[i];
            let mut at: usize = 0;
            while at < out.len() && out[at].code() <= d.code()
                invariant
                    at <= out@.len(),
                    forall|k: int| 0 <= k < at ==> out@[k].code() <= d.code(),
                decreases out@.len() - at,
            {
                at += 1;
            }
            let ghost before = out@;
            out.insert(at, d);
            proof {
                vstd::seq_lib::to_multiset_insert(before, at as int, d);
                vstd::seq_lib::to_multiset_build(dialects@.subrange(0, i as int), d);
                assert(dialects@.subrange(0, i + 1) =~= dialects@.subrange(0, i as int).push(d));
                assert forall|a: int, b: int| 0 <= a <= b < out@.len() implies out@[a].code()
                    <= out@[b].code() by {
                    let x = if a < at {
                        before[a]
                    } else if a == at {
                        d
                    } else {
                        before[a - 1]
                    };
                    let y = if b < at {
                        before[b]
                    } else if b == at {
                        d
                    } else {
                        before[b - 1]
                    };
                    assert(out@[a] == x && out@[b] == y);
                    if b > at {
                        assert(before[at as int].code() <= before[b - 1].code());
                    }
                }
            }
            i += 1;
        }
        assert(dialects@.subrange(0, i as int) =~= dialects@);
        out
    }

    /// Whether a list of revisions holds the given one.
    pub fn is_offered(dialects: &[SMBDialect], wanted: SMBDialect) -> (r: bool)
        ensures
            r == dialects@.contains(wanted),
    {
        let mut i: usize = 0;
        while i < dialects.len()
            invariant
                i <= dialects@.len(),
                forall|k: int| 0 <= k < i ==> dialects@[k] != wanted,
            decreases dialects@.len() - i,
        {
            if dialects[i] == wanted {
                return true;
            }
            i += 1;
        }
        false
    }
}

impl TryFrom<u16> for SMBDialect {
    type Error = NegotiateError;

    /// Decodes a wire code. An unknown code is an error of its own, which a
    /// caller that reads a list passes over.
    fn try_from(code: u16) -> (r: Result<SMBDialect, NegotiateError>) {
        if code == 0x0202 {
            Ok(SMBDialect::V2_0_2)
        } else if code == 0x0210 {
            Ok(SMBDialect::V2_1_0)
        } else if code == 0x02ff {
            Ok(SMBDialect::V2_X_X)
        } else if code == 0x0300 {
            Ok(SMBDialect::V3_0_0)
        } else if code == 0x0302 {
            Ok(SMBDialect::V3_0_2)
        } else if code == 0x0311 {
            Ok(SMBDialect::V3_1_1)
        } else {
            Err(NegotiateError::UnrecognizedDialectCode)
        }
    }
}

impl TryFromSpecImpl<u16> for SMBDialect {
    open spec fn obeys_try_from_spec() -> bool {
        true
    }

    open spec fn try_from_spec(code: u16) -> Result<SMBDialect, NegotiateError> {
        match dialect_of(code) {
            Some(d) => Ok(d),
            None => Err(NegotiateError::UnrecognizedDialectCode),
        }
    }
}

impl PartialOrd for SMBDialect {
    /// Revisions compare as their wire codes do.
    fn partial_cmp(&self, other: &SMBDialect) -> (r: Option<Ordering>) {
        let a = self.code();
        let b = other.code();
        if a < b {
            Some(Ordering::Less)
        } else if a == b {
            Some(Ordering::Equal)
        } else {
            Some(Ordering::Greater)
        }
    }
}

impl PartialOrdSpecImpl for SMBDialect {
    open spec fn obeys_partial_cmp_spec() -> bool {
        true
    }

    open spec fn partial_cmp_spec(&self, other: &SMBDialect) -> Option<Ordering> {
        if self.code() < other.code() {
            Some(Ordering::Less)
        } else if self.code() == other.code() {
            Some(Ordering::Equal)
        } else {
            Some(Ordering::Greater)
        }
    }
}

/// A wire code names the revision whose code it is, and no other: decoding
/// the code of a revision gives the revision back, and a code that decodes
/// is the code of what it decodes to.
pub proof fn lemma_code_round_trip(d: SMBDialect, code: u16)
    ensures
        dialect_of(d.code()) == Some(d),
        dialect_of(code) matches Some(e) ==> e.code() == code,
{
}

/// The order of the revisions is total and is that of their codes: two
/// revisions with one code are one revision.
pub proof fn lemma_order_is_total(a: SMBDialect, b: SMBDialect)
    ensures
        a.code() == b.code() ==> a == b,
        a.code() < b.code() || a == b || b.code() < a.code(),
{
}

/// What `newest` picks: a member of the list that no member exceeds. A list
/// with a member has exactly one such revision.
pub proof fn lemma_newest_is_maximum(dialects: Seq<SMBDialect>)
    ensures
        dialects.len() == 0 <==> newest(dialects) is None,
        newest(dialects) matches Some(m) ==> dialects.contains(m) && forall|i: int|
            0 <= i < dialects.len() ==> dialects[i].code() <= m.code(),
    decreases dialects.len(),
{
    if dialects.len() > 0 {
        let init = dialects.drop_last();
        lemma_newest_is_maximum(init);
        let m = newest(dialects)->0;
        if init.len() > 0 {
            let p = newest(init)->0;
            if m == p {
                let k = choose|k: int| 0 <= k < init.len() && init[k] == p;
                assert(dialects[k] == m);
            } else {
                assert(dialects[dialects.len() - 1] == m);
            }
        } else {
            assert(dialects[dialects.len() - 1] == m);
        }
        assert forall|i: int| 0 <= i < dialects.len() implies dialects[i].code() <= m.code() by {
            if i < init.len() {
                assert(init[i] == dialects[i]);
            }
        }
    }
}

/// The negotiated revision does not depend on the order of the offer: two
/// lists with the same members select the same revision.
pub proof fn lemma_selection_ignores_order(a: Seq<SMBDialect>, b: Seq<SMBDialect>)
    requires
        forall|d: SMBDialect| a.contains(d) <==> b.contains(d),
    ensures
        newest(a) == newest(b),
{
    lemma_newest_is_maximum(a);
    lemma_newest_is_maximum(b);
    if a.len() == 0 {
        if b.len() > 0 {
            assert(b.contains(b[0]));
            assert(a.contains(b[0]));
        }
    } else {
        assert(a.contains(a[0]));
        assert(b.contains(a[0]));
        let ma = newest(a)->0;
        let mb = newest(b)->0;
        assert(b.contains(ma));
        assert(a.contains(mb));
        let i = choose|i: int| 0 <= i < b.len() && b[i] == ma;
        let j = choose|j: int| 0 <= j < a.len() && a[j] == mb;
        assert(b[i].code() <= mb.code());
        assert(a[j].code() <= ma.code());
        lemma_order_is_total(ma, mb);
    }
}

/// Sorting and taking the last revision selects the newest: the last entry
/// of an ascending list is the newest of every list with the same members.
pub proof fn lemma_last_of_sorted_is_newest(dialects: Seq<SMBDialect>, sorted: Seq<SMBDialect>)
    requires
        is_ascending(sorted),
        sorted.to_multiset() == dialects.to_multiset(),
    ensures
        sorted.len() == dialects.len(),
        newest(dialects) == if sorted.len() == 0 {
            None
        } else {
            Some(sorted.last())
        },
{
    vstd::seq_lib::to_multiset_len(sorted);
    vstd::seq_lib::to_multiset_len(dialects);
    assert forall|d: SMBDialect| sorted.contains(d) <==> dialects.contains(d) by {
        vstd::seq_lib::to_multiset_contains(sorted, d);
        vstd::seq_lib::to_multiset_contains(dialects, d);
    }
    lemma_selection_ignores_order(sorted, dialects);
    lemma_newest_is_maximum(sorted);
    if sorted.len() > 0 {
        let m = newest(sorted)->0;
        let last = sorted.last();
        assert(sorted[sorted.len() - 1] == last);
        assert(last.code() <= m.code());
        let k = choose|k: int| 0 <= k < sorted.len() && sorted[k] == m;
        assert(sorted[k].code() <= sorted[sorted.len() - 1].code());
        lemma_order_is_total(m, last);
    }
}

/// The known revisions of a list of codes are those whose codes occur in it.
pub proof fn lemma_recognized_members(codes: Seq<u16>, d: SMBDialect)
    ensures
        recognized(codes).contains(d) <==> codes.contains(d.code()),
        recognized(codes).len() <= codes.len(),
    decreases codes.len(),
{
    if codes.len() > 0 {
        let init = codes.drop_last();
        lemma_recognized_members(init, d);
        let r = recognized(codes);
        let ri = recognized(init);
        lemma_code_round_trip(d, codes.last());
        if r.contains(d) {
            let k = choose|k: int| 0 <= k < r.len() && r[k] == d;
            if k < ri.len() {
                assert(ri[k] == d);
                assert(ri.contains(d));
                let j = choose|j: int| 0 <= j < init.len() && init[j] == d.code();
                assert(codes[j] == d.code());
            } else {
                assert(codes[codes.len() - 1] == d.code());
            }
        }
        if codes.contains(d.code()) {
            let j = choose|j: int| 0 <= j < codes.len() && codes[j] == d.code();
            if j < init.len() {
                assert(init[j] == d.code());
                assert(init.contains(d.code()));
                let k = choose|k: int| 0 <= k < ri.len() && ri[k] == d;
                assert(r[k] == d);
            } else {
                assert(r[r.len() - 1] == d);
            }
        }
    } else {
        assert(recognized(codes) =~= Seq::<SMBDialect>::empty());
    }
}

/// Shuffling the codes of an offer leaves the negotiated revision as it was:
/// two code lists that are permutations of each other select the same
/// revision.
pub proof fn lemma_shuffled_offer_selects_same(a: Seq<u16>, b: Seq<u16>)
    requires
        a.to_multiset() == b.to_multiset(),
    ensures
        newest(recognized(a)) == newest(recognized(b)),
{
    assert forall|d: SMBDialect| recognized(a).contains(d) <==> recognized(b).contains(d) by {
        lemma_recognized_members(a, d);
        lemma_recognized_members(b, d);
        vstd::seq_lib::to_multiset_contains(a, d.code());
        vstd::seq_lib::to_multiset_contains(b, d.code());
    }
    lemma_selection_ignores_order(recognized(a), recognized(b));
}

/// A code that names no revision leaves no trace in the parsed list: the
/// list is the same with the code taken out.
pub proof fn lemma_unknown_code_is_dropped(codes: Seq<u16>, at: int)
    requires
        0 <= at < codes.len(),
        dialect_of(codes[at]) is None,
    ensures
        recognized(codes) == recognized(codes.remove(at)),
    decreases codes.len(),
{
    if at == codes.len() - 1 {
        assert(codes.remove(at) =~= codes.drop_last());
    } else {
        lemma_unknown_code_is_dropped(codes.drop_last(), at);
        assert(codes.remove(at).drop_last() =~= codes.drop_last().remove(at));
        assert(codes.remove(at).last() == codes.last());
    }
}

} // verus!
