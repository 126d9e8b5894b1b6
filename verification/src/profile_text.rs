//! The profile document: a JSON object with the keys `function_counts`,
//! `loop_counts`, `type_profiles` and `branch_profiles`. Export renders a
//! profiler's tables in their stored order; import parses such a document
//! back, so that a document import accepted re-exports verbatim.

use vstd::prelude::*;
use crate::assoc::KeyMap;
use crate::profiler::{HotSpotProfiler, TypeProfile, BranchProfile};
use crate::text::{dec_nat, u64_to_string};

verus! {

/// One `"key":value` pair of a counts table, both numbers in decimal.
pub open spec fn counts_entry(e: (usize, u64)) -> Seq<char> {
    seq!['"'] + dec_nat(e.0 as nat) + seq!['"', ':'] + dec_nat(e.1 as nat)
}

/// The first `n` entries of a counts table, comma-separated.
pub open spec fn counts_body(s: Seq<(usize, u64)>, n: int) -> Seq<char>
    decreases n,
{
    if n <= 0 {
        Seq::empty()
    } else if n == 1 {
        counts_entry(s[0])
    } else {
        counts_body(s, n - 1) + seq![','] + counts_entry(s[n - 1])
    }
}

/// A counts table as a JSON object.
pub open spec fn render_counts(s: Seq<(usize, u64)>) -> Seq<char> {
    seq!['{'] + counts_body(s, s.len() as int) + seq!['}']
}

/// One `"name":count` pair of a type profile.
pub open spec fn name_entry(e: (String, u64)) -> Seq<char> {
    seq!['"'] + e.0@ + seq!['"', ':'] + dec_nat(e.1 as nat)
}

/// The first `n` name entries of a type profile, comma-separated.
pub open spec fn names_body(s: Seq<(String, u64)>, n: int) -> Seq<char>
    decreases n,
{
    if n <= 0 {
        Seq::empty()
    } else if n == 1 {
        name_entry(s[0])
    } else {
        names_body(s, n - 1) + seq![','] + name_entry(s[n - 1])
    }
}

/// A type profile as a JSON object from type names to counts.
pub open spec fn render_type_profile(p: TypeProfile) -> Seq<char> {
    seq!['{'] + names_body(p.type_counts@, p.type_counts@.len() as int) + seq!['}']
}

/// One `"pc":profile` pair of the type-profile table.
pub open spec fn tp_entry(e: (usize, TypeProfile)) -> Seq<char> {
    seq!['"'] + dec_nat(e.0 as nat) + seq!['"', ':'] + render_type_profile(e.1)
}

/// The first `n` entries of the type-profile table, comma-separated.
pub open spec fn tp_body(s: Seq<(usize, TypeProfile)>, n: int) -> Seq<char>
    decreases n,
{
    if n <= 0 {
        Seq::empty()
    } else if n == 1 {
        tp_entry(s[0])
    } else {
        tp_body(s, n - 1) + seq![','] + tp_entry(s[n - 1])
    }
}

/// The type-profile table as a JSON object.
pub open spec fn render_type_profiles(s: Seq<(usize, TypeProfile)>) -> Seq<char> {
    seq!['{'] + tp_body(s, s.len() as int) + seq!['}']
}

/// One `"pc":[taken,not_taken]` pair of the branch-profile table.
pub open spec fn bp_entry(e: (usize, BranchProfile)) -> Seq<char> {
    seq!['"'] + dec_nat(e.0 as nat) + seq!['"', ':', '['] + dec_nat(e.1.taken_count as nat)
        + seq![','] + dec_nat(e.1.not_taken_count as nat) + seq![']']
}

/// The first `n` entries of the branch-profile table, comma-separated.
pub open spec fn bp_body(s: Seq<(usize, BranchProfile)>, n: int) -> Seq<char>
    decreases n,
{
    if n <= 0 {
        Seq::empty()
    } else if n == 1 {
        bp_entry(s[0])
    } else {
        bp_body(s, n - 1) + seq![','] + bp_entry(s[n - 1])
    }
}

/// The branch-profile table as a JSON object.
pub open spec fn render_branch_profiles(s: Seq<(usize, BranchProfile)>) -> Seq<char> {
    seq!['{'] + bp_body(s, s.len() as int) + seq!['}']
}

/// The whole profile document.
pub open spec fn render_document(
    fc: Seq<(usize, u64)>,
    lc: Seq<(usize, u64)>,
    tp: Seq<(usize, TypeProfile)>,
    bp: Seq<(usize, BranchProfile)>,
) -> Seq<char> {
    "{\"function_counts\":"@ + render_counts(fc) + ",\"loop_counts\":"@ + render_counts(lc)
        + ",\"type_profiles\":"@ + render_type_profiles(tp) + ",\"branch_profiles\":"@
        + render_branch_profiles(bp) + "}"@
}

/// Append one counts table, rendered, to `out`.
fn append_counts(out: &mut String, m: &KeyMap<u64>)
    ensures
        final(out)@ == old(out)@ + render_counts(m.entries@),
{
    proof {
        reveal_strlit("{");
        reveal_strlit("}");
        reveal_strlit(",");
        reveal_strlit("\"");
        reveal_strlit("\":");
    }
    let ghost s = m.entries@;
    out.append("{");
    let n = m.len();
    let mut i: usize = 0;
    while i < n
        invariant
            s == m.entries@,
            n == s.len(),
            0 <= i <= n,
            out@ == old(out)@ + seq!['{'] + counts_body(s, i as int),
        decreases n - i,
    {
        proof {
            reveal_strlit("{");
            reveal_strlit(",");
            reveal_strlit("\"");
            reveal_strlit("\":");
        }
        if i > 0 {
            out.append(",");
        }
        out.append("\"");
        let k = u64_to_string(m.entries[i].0 as u64);
        out.append(k.as_str());
        out.append("\":");
        let v = u64_to_string(m.entries[i].1);
        out.append(v.as_str());
        proof {
            assert(out@ =~= old(out)@ + seq!['{'] + counts_body(s, i + 1));
        }
        i += 1;
    }
    out.append("}");
    proof {
        assert(out@ =~= old(out)@ + render_counts(s));
    }
}

/// Append one type profile, rendered, to `out`.
fn append_type_profile(out: &mut String, p: &TypeProfile)
    ensures
        final(out)@ == old(out)@ + render_type_profile(*p),
{
    proof {
        reveal_strlit("{");
        reveal_strlit("}");
        reveal_strlit(",");
        reveal_strlit("\"");
        reveal_strlit("\":");
    }
    let ghost s = p.type_counts@;
    out.append("{");
    let n = p.type_counts.len();
    let mut i: usize = 0;
    while i < n
        invariant
            s == p.type_counts@,
            n == s.len(),
            0 <= i <= n,
            out@ == old(out)@ + seq!['{'] + names_body(s, i as int),
        decreases n - i,
    {
        proof {
            reveal_strlit(",");
            reveal_strlit("\"");
            reveal_strlit("\":");
        }
        if i > 0 {
            out.append(",");
        }
        out.append("\"");
        out.append(p.type_counts[i].0.as_str());
        out.append("\":");
        let v = u64_to_string(p.type_counts[i].1);
        out.append(v.as_str());
        proof {
            assert(out@ =~= old(out)@ + seq!['{'] + names_body(s, i + 1));
        }
        i += 1;
    }
    out.append("}");
    proof {
        assert(out@ =~= old(out)@ + render_type_profile(*p));
    }
}

/// Append the type-profile table, rendered, to `out`.
fn append_type_profiles(out: &mut String, m: &KeyMap<TypeProfile>)
    ensures
        final(out)@ == old(out)@ + render_type_profiles(m.entries@),
{
    proof {
        reveal_strlit("{");
        reveal_strlit("}");
        reveal_strlit(",");
        reveal_strlit("\"");
        reveal_strlit("\":");
    }
    let ghost s = m.entries@;
    out.append("{");
    let n = m.len();
    let mut i: usize = 0;
    while i < n
        invariant
            s == m.entries@,
            n == s.len(),
            0 <= i <= n,
            out@ == old(out)@ + seq!['{'] + tp_body(s, i as int),
        decreases n - i,
    {
        proof {
            reveal_strlit(",");
            reveal_strlit("\"");
            reveal_strlit("\":");
        }
        if i > 0 {
            out.append(",");
        }
        out.append("\"");
        let k = u64_to_string(m.entries[i].0 as u64);
        out.append(k.as_str());
        out.append("\":");
        append_type_profile(out, &m.entries[i].1);
        proof {
            assert(out@ =~= old(out)@ + seq!['{'] + tp_body(s, i + 1));
        }
        i += 1;
    }
    out.append("}");
    proof {
        assert(out@ =~= old(out)@ + render_type_profiles(s));
    }
}

/// Append the branch-profile table, rendered, to `out`.
fn append_branch_profiles(out: &mut String, m: &KeyMap<BranchProfile>)
    ensures
        final(out)@ == old(out)@ + render_branch_profiles(m.entries@),
{
    proof {
        reveal_strlit("{");
        reveal_strlit("}");
        reveal_strlit(",");
        reveal_strlit("\"");
        reveal_strlit("\":[");
        reveal_strlit("]");
    }
    let ghost s = m.entries@;
    out.append("{");
    let n = m.len();
    let mut i: usize = 0;
    while i < n
        invariant
            s == m.entries@,
            n == s.len(),
            0 <= i <= n,
            out@ == old(out)@ + seq!['{'] + bp_body(s, i as int),
        decreases n - i,
    {
        proof {
            reveal_strlit(",");
            reveal_strlit("\"");
            reveal_strlit("\":[");
            reveal_strlit("]");
        }
        if i > 0 {
            out.append(",");
        }
        out.append("\"");
        let k = u64_to_string(m.entries[i].0 as u64);
        out.append(k.as_str());
        out.append("\":[");
        let t = u64_to_string(m.entries[i].1.taken_count);
        out.append(t.as_str());
        out.append(",");
        let nt = u64_to_string(m.entries[i].1.not_taken_count);
        out.append(nt.as_str());
        out.append("]");
        proof {
            assert(out@ =~= old(out)@ + seq!['{'] + bp_body(s, i + 1));
        }
        i += 1;
    }
    out.append("}");
    proof {
        assert(out@ =~= old(out)@ + render_branch_profiles(s));
    }
}

impl HotSpotProfiler {
    /// Render the function counts, loop counts, type profiles and branch
    /// profiles as one JSON document, each table in its stored order.
    pub fn export_profile_data(&self) -> (r: String)
        ensures
            r@ == render_document(
                self.function_counts.entries@,
                self.loop_counts.entries@,
                self.type_profiles.entries@,
                self.branch_profiles.entries@,
            ),
    {
        proof {
            reveal_strlit("{\"function_counts\":");
            reveal_strlit(",\"loop_counts\":");
            reveal_strlit(",\"type_profiles\":");
            reveal_strlit(",\"branch_profiles\":");
            reveal_strlit("}");
        }
        let mut out = String::new();
        out.append("{\"function_counts\":");
        append_counts(&mut out, &self.function_counts);
        out.append(",\"loop_counts\":");
        append_counts(&mut out, &self.loop_counts);
        out.append(",\"type_profiles\":");
        append_type_profiles(&mut out, &self.type_profiles);
        out.append(",\"branch_profiles\":");
        append_branch_profiles(&mut out, &self.branch_profiles);
        out.append("}");
        proof {
            assert(out@ =~= render_document(
                self.function_counts.entries@,
                self.loop_counts.entries@,
                self.type_profiles.entries@,
                self.branch_profiles.entries@,
            ));
        }
        out
    }
}


/// Whether `c` is a decimal digit.
pub open spec fn is_digit_char(c: char) -> bool {
    0x30 <= c as u32 <= 0x39
}

/// The value of a decimal digit character.
pub open spec fn digit_of(c: char) -> nat {
    (c as u32 - 0x30) as nat
}

/// The number a digit string denotes, most significant digit first.
pub open spec fn digits_val(ds: Seq<char>) -> nat
    decreases ds.len(),
{
    if ds.len() == 0 {
        0
    } else {
        digits_val(ds.drop_last()) * 10 + digit_of(ds.last())
    }
}

/// Digit characters round-trip through their values.
pub proof fn lemma_digit_char_of(c: char)
    requires
        is_digit_char(c),
    ensures
        crate::text::digit_char(digit_of(c)) == c,
        digit_of(c) < 10,
{
}

/// A nonempty digit string without a leading zero denotes a positive
/// number.
pub proof fn lemma_digits_val_pos(ds: Seq<char>)
    requires
        ds.len() > 0,
        forall|i: int| 0 <= i < ds.len() ==> is_digit_char(#[trigger] ds[i]),
        digit_of(ds[0]) != 0,
    ensures
        digits_val(ds) >= 1,
    decreases ds.len(),
{
    if ds.len() > 1 {
        assert(ds.drop_last()[0] == ds[0]);
        lemma_digits_val_pos(ds.drop_last());
        assert(digits_val(ds) == digits_val(ds.drop_last()) * 10 + digit_of(ds.last()));
    } else {
        assert(ds.drop_last() =~= Seq::<char>::empty());
        assert(digits_val(Seq::<char>::empty()) == 0);
        assert(digits_val(ds) == digit_of(ds[0]));
    }
}

/// The canonical rendering is the inverse of reading digits: a nonempty
/// digit string with no leading zero (except the single digit zero) is
/// the canonical rendering of its value.
pub proof fn lemma_digits_canonical(ds: Seq<char>)
    requires
        ds.len() > 0,
        forall|i: int| 0 <= i < ds.len() ==> is_digit_char(#[trigger] ds[i]),
        digit_of(ds[0]) != 0 || ds.len() == 1,
    ensures
        dec_nat(digits_val(ds)) == ds,
    decreases ds.len(),
{
    lemma_digit_char_of(ds.last());
    if ds.len() == 1 {
        assert(digits_val(ds) == digit_of(ds[0])) by {
            assert(ds.drop_last() =~= Seq::<char>::empty());
            assert(digits_val(Seq::<char>::empty()) == 0);
        }
        assert(dec_nat(digits_val(ds)) =~= ds);
    } else {
        let prefix = ds.drop_last();
        assert(prefix[0] == ds[0]);
        assert(forall|i: int| 0 <= i < prefix.len() ==> is_digit_char(#[trigger] prefix[i]));
        lemma_digits_val_pos(prefix);
        let n = digits_val(ds);
        assert(n == digits_val(prefix) * 10 + digit_of(ds.last()));
        assert(n / 10 == digits_val(prefix) && n % 10 == digit_of(ds.last())) by (nonlinear_arith)
            requires
                n == digits_val(prefix) * 10 + digit_of(ds.last()),
                digit_of(ds.last()) < 10,
        ;
        assert(n >= 10) by (nonlinear_arith)
            requires
                n == digits_val(prefix) * 10 + digit_of(ds.last()),
                digits_val(prefix) >= 1,
        ;
        lemma_digits_canonical(prefix);
        assert(dec_nat(n) =~= ds);
    }
}

/// The rendered body of a counts table reads only its first `n` entries.
pub proof fn lemma_counts_body_prefix(s1: Seq<(usize, u64)>, s2: Seq<(usize, u64)>, n: int)
    requires
        0 <= n <= s1.len(),
        n <= s2.len(),
        forall|i: int| 0 <= i < n ==> s1[i] == s2[i],
    ensures
        counts_body(s2, n) == counts_body(s1, n),
    decreases n,
{
    if n > 0 {
        lemma_counts_body_prefix(s1, s2, n - 1);
    }
}

/// The rendered body of a type profile reads only its first `n` entries.
pub proof fn lemma_names_body_prefix(s1: Seq<(String, u64)>, s2: Seq<(String, u64)>, n: int)
    requires
        0 <= n <= s1.len(),
        n <= s2.len(),
        forall|i: int| 0 <= i < n ==> s1[i] == s2[i],
    ensures
        names_body(s2, n) == names_body(s1, n),
    decreases n,
{
    if n > 0 {
        lemma_names_body_prefix(s1, s2, n - 1);
    }
}

/// The rendered body of the type-profile table reads only its first `n`
/// entries.
pub proof fn lemma_tp_body_prefix(s1: Seq<(usize, TypeProfile)>, s2: Seq<(usize, TypeProfile)>, n: int)
    requires
        0 <= n <= s1.len(),
        n <= s2.len(),
        forall|i: int| 0 <= i < n ==> s1[i] == s2[i],
    ensures
        tp_body(s2, n) == tp_body(s1, n),
    decreases n,
{
    if n > 0 {
        lemma_tp_body_prefix(s1, s2, n - 1);
    }
}

/// The rendered body of the branch-profile table reads only its first `n`
/// entries.
pub proof fn lemma_bp_body_prefix(s1: Seq<(usize, BranchProfile)>, s2: Seq<(usize, BranchProfile)>, n: int)
    requires
        0 <= n <= s1.len(),
        n <= s2.len(),
        forall|i: int| 0 <= i < n ==> s1[i] == s2[i],
    ensures
        bp_body(s2, n) == bp_body(s1, n),
    decreases n,
{
    if n > 0 {
        lemma_bp_body_prefix(s1, s2, n - 1);
    }
}

/// Consume the exact text of `lit` at `pos`: it succeeds exactly when
/// the input continues with that text.
fn expect_lit(s: &str, pos: usize, lit: &str) -> (r: Option<usize>)
    requires
        pos <= s@.len(),
    ensures
        r matches Some(j) ==> pos + lit@.len() == j && j <= s@.len() && s@.subrange(
            pos as int,
            j as int,
        ) == lit@,
        pos + lit@.len() <= s@.len() && s@.subrange(pos as int, pos + lit@.len()) == lit@ ==> r
            is Some,
{
    let n = lit.unicode_len();
    let total = s.unicode_len();
    if n > total - pos {
        return None;
    }
    let mut k: usize = 0;
    while k < n
        invariant
            pos + n <= s@.len(),
            s@.len() <= usize::MAX,
            n == lit@.len(),
            0 <= k <= n,
            forall|i: int| 0 <= i < k ==> s@[pos + i] == lit@[i],
        decreases n - k,
    {
        if s.get_char(pos + k) != lit.get_char(k) {
            proof {
                if s@.subrange(pos as int, pos + n) == lit@ {
                    assert(s@.subrange(pos as int, pos + n)[k as int] == s@[pos + k]);
                }
            }
            return None;
        }
        k += 1;
    }
    proof {
        assert(s@.subrange(pos as int, (pos + n) as int) =~= lit@);
    }
    Some(pos + n)
}

/// Consume one character `c` at `pos`: it succeeds exactly when the
/// input continues with that character.
fn expect_char(s: &str, pos: usize, c: char) -> (r: Option<usize>)
    requires
        pos <= s@.len(),
    ensures
        r matches Some(j) ==> j == pos + 1 && j <= s@.len() && s@.subrange(pos as int, j as int)
            =~= seq![c],
        pos < s@.len() && s@[pos as int] == c ==> r is Some,
{
    if pos < s.unicode_len() && s.get_char(pos) == c {
        proof {
            assert(s@.subrange(pos as int, pos + 1 as int) =~= seq![c]);
        }
        Some(pos + 1)
    } else {
        None
    }
}

/// Read a canonical decimal number at `pos`: the consumed text is exactly
/// the value's rendering.
fn parse_u64(s: &str, pos: usize) -> (r: Option<(u64, usize)>)
    requires
        pos <= s@.len(),
    ensures
        r matches Some((v, j)) ==> pos < j <= s@.len() && s@.subrange(pos as int, j as int)
            == dec_nat(v as nat),
{
    let total = s.unicode_len();
    if pos >= total {
        return None;
    }
    let c0 = s.get_char(pos);
    let code0 = c0 as u32;
    if code0 < 0x30 || code0 > 0x39 {
        return None;
    }
    if code0 == 0x30 {
        if pos + 1 < total {
            let c1 = s.get_char(pos + 1);
            let code1 = c1 as u32;
            if 0x30 <= code1 && code1 <= 0x39 {
                return None;
            }
        }
        proof {
            assert(s@.subrange(pos as int, pos + 1 as int) =~= seq![c0]);
            assert(digit_of(c0) == 0);
            lemma_digit_char_of(c0);
            assert(dec_nat(0) =~= seq![c0]);
        }
        return Some((0u64, pos + 1));
    }
    let mut v: u64 = (code0 - 0x30) as u64;
    let mut cur: usize = pos + 1;
    proof {
        assert(s@.subrange(pos as int, cur as int) =~= seq![c0]);
        assert(seq![c0].drop_last() =~= Seq::<char>::empty());
        assert(digits_val(Seq::<char>::empty()) == 0);
        assert(digits_val(seq![c0]) == digit_of(c0));
    }
    while cur < total
        invariant
            pos < cur <= total,
            total == s@.len(),
            total <= usize::MAX,
            v == digits_val(s@.subrange(pos as int, cur as int)),
            forall|i: int|
                pos <= i < cur ==> is_digit_char(#[trigger] s@[i]),
            digit_of(s@[pos as int]) != 0,
        decreases total - cur,
    {
        let c = s.get_char(cur);
        let code = c as u32;
        if code < 0x30 || code > 0x39 {
            break ;
        }
        let d = (code - 0x30) as u64;
        let v10 = match v.checked_mul(10) {
            Some(x) => x,
            None => {
                return None;
            },
        };
        let v2 = match v10.checked_add(d) {
            Some(x) => x,
            None => {
                return None;
            },
        };
        proof {
            let ds0 = s@.subrange(pos as int, cur as int);
            let ds1 = s@.subrange(pos as int, cur + 1 as int);
            assert(ds1.drop_last() =~= ds0);
            assert(ds1.last() == c);
        }
        v = v2;
        cur += 1;
    }
    proof {
        let ds = s@.subrange(pos as int, cur as int);
        assert(ds[0] == s@[pos as int]);
        lemma_digits_val_pos(ds);
        lemma_digits_canonical(ds);
    }
    Some((v, cur))
}

/// Read a `"key"` made of digits at `pos`, yielding the key as a machine
/// word; the consumed text is the quoted rendering of the key.
fn parse_quoted_key(s: &str, pos: usize) -> (r: Option<(usize, usize)>)
    requires
        pos <= s@.len(),
    ensures
        r matches Some((k, j)) ==> pos < j <= s@.len() && s@.subrange(pos as int, j as int)
            == seq!['"'] + dec_nat(k as nat) + seq!['"'],
{
    let p1 = match expect_char(s, pos, '"') {
        Some(p) => p,
        None => {
            return None;
        },
    };
    let (v, p2) = match parse_u64(s, p1) {
        Some(x) => x,
        None => {
            return None;
        },
    };
    if v > usize::MAX as u64 {
        return None;
    }
    let p3 = match expect_char(s, p2, '"') {
        Some(p) => p,
        None => {
            return None;
        },
    };
    proof {
        assert(s@.subrange(pos as int, p3 as int) =~= seq!['"'] + dec_nat(v as nat) + seq!['"']);
    }
    Some((v as usize, p3))
}

/// Read a counts table at `pos`: the consumed text is exactly the
/// rendering of the returned map, whose keys are distinct. An empty
/// table is always read successfully.
fn parse_counts(s: &str, pos: usize) -> (r: Option<(KeyMap<u64>, usize)>)
    requires
        pos <= s@.len(),
    ensures
        r matches Some((m, j)) ==> pos < j <= s@.len() && m.wf() && s@.subrange(
            pos as int,
            j as int,
        ) == render_counts(m.entries@),
        pos + 1 < s@.len() && s@[pos as int] == '{' && s@[pos + 1] == '}' ==> (r matches Some(
            (m, j),
        ) && m.entries@.len() == 0 && j == pos + 2),
{
    let total = s.unicode_len();
    let mut cur = match expect_char(s, pos, '{') {
        Some(p) => p,
        None => {
            return None;
        },
    };
    let mut m: KeyMap<u64> = KeyMap::new();
    let mut count: usize = 0;
    if cur < total && s.get_char(cur) == '}' {
        proof {
            assert(s@.subrange(pos as int, cur + 1 as int) =~= render_counts(m.entries@));
        }
        return Some((m, cur + 1));
    }
    loop
        invariant
            total == s@.len(),
            pos < cur <= total,
            !(pos + 1 < s@.len() && s@[pos as int] == '{' && s@[pos + 1] == '}'),
            m.wf(),
            count == m.entries@.len(),
            s@.subrange(pos as int, cur as int) =~= seq!['{'] + counts_body(
                m.entries@,
                count as int,
            ),
        decreases total - cur,
    {
        if count > 0 {
            cur = match expect_char(s, cur, ',') {
                Some(p) => p,
                None => {
                    return None;
                },
            };
        }
        let ghost consumed0 = s@.subrange(pos as int, cur as int);
        let (k, p1) = match parse_quoted_key(s, cur) {
            Some(x) => x,
            None => {
                return None;
            },
        };
        let p2 = match expect_char(s, p1, ':') {
            Some(p) => p,
            None => {
                return None;
            },
        };
        let (v, p3) = match parse_u64(s, p2) {
            Some(x) => x,
            None => {
                return None;
            },
        };
        if m.contains_key(k) {
            return None;
        }
        let ghost entries0 = m.entries@;
        m.insert(k, v);
        proof {
            assert(m.entries@ =~= entries0.push((k, v)));
            lemma_counts_body_prefix(entries0, m.entries@, count as int);
            assert(m.entries@[count as int] == (k, v));
            assert(s@.subrange(pos as int, p3 as int) =~= seq!['{'] + counts_body(
                m.entries@,
                count + 1,
            )) by {
                assert(s@.subrange(cur as int, p3 as int) =~= s@.subrange(cur as int, p1 as int)
                    + s@.subrange(p1 as int, p2 as int) + s@.subrange(p2 as int, p3 as int));
                assert(s@.subrange(pos as int, p3 as int) =~= s@.subrange(pos as int, cur as int)
                    + s@.subrange(cur as int, p3 as int));
                if count == 0 {
                    assert(counts_body(m.entries@, 1) == counts_entry(m.entries@[0]));
                    assert(consumed0 =~= seq!['{']);
                } else {
                    assert(consumed0 =~= seq!['{'] + counts_body(entries0, count as int)
                        + seq![',']) by {
                        assert(s@.subrange(pos as int, cur as int) =~= s@.subrange(
                            pos as int,
                            (cur - 1) as int,
                        ) + s@.subrange((cur - 1) as int, cur as int));
                    }
                }
            }
        }
        count = m.len();
        cur = p3;
        if cur < total && s.get_char(cur) == '}' {
            proof {
                assert(s@.subrange(pos as int, cur + 1 as int) =~= s@.subrange(
                    pos as int,
                    cur as int,
                ) + seq!['}']);
                assert(s@.subrange(pos as int, cur + 1 as int) =~= render_counts(m.entries@));
            }
            return Some((m, cur + 1));
        }
        if cur >= total {
            return None;
        }
        if s.get_char(cur) != ',' {
            return None;
        }
    }
}


/// Read a quoted name at `pos`: the characters up to the next quote.
fn parse_name(s: &str, pos: usize) -> (r: Option<(String, usize)>)
    requires
        pos <= s@.len(),
    ensures
        r matches Some((name, j)) ==> pos < j <= s@.len() && s@.subrange(pos as int, j as int)
            == seq!['"'] + name@ + seq!['"'],
{
    let total = s.unicode_len();
    let p1 = match expect_char(s, pos, '"') {
        Some(p) => p,
        None => {
            return None;
        },
    };
    let mut cur: usize = p1;
    while cur < total && s.get_char(cur) != '"'
        invariant
            p1 <= cur <= total,
            total == s@.len(),
            total <= usize::MAX,
        decreases total - cur,
    {
        cur += 1;
    }
    if cur >= total {
        return None;
    }
    let content: String = s.substring_char(p1, cur).to_owned();
    proof {
        assert(s@.subrange(pos as int, cur + 1 as int) =~= seq!['"'] + content@ + seq!['"']);
    }
    Some((content, cur + 1))
}

/// Whether any of the first entries carries the given name.
fn has_name(v: &Vec<(String, u64)>, name: &String) -> (r: bool)
    ensures
        r == (crate::profiler::find_name_from(v@, name@, 0) >= 0),
{
    proof {
        crate::profiler::lemma_find_name_from(v@, name@, 0);
    }
    let n = v.len();
    let mut i: usize = 0;
    while i < n
        invariant
            n == v@.len(),
            0 <= i <= n,
            forall|j: int| 0 <= j < i ==> (#[trigger] v@[j]).0@ != name@,
        decreases n - i,
    {
        if v[i].0 == *name {
            proof {
                crate::profiler::lemma_find_name_from(v@, name@, 0);
            }
            return true;
        }
        i += 1;
    }
    proof {
        crate::profiler::lemma_find_name_from(v@, name@, 0);
    }
    false
}

/// Read a type profile at `pos`: a JSON object from names to counts. The
/// consumed text is exactly the profile's rendering; its names are
/// distinct; the observation total is the (saturated) sum of the counts.
fn parse_type_profile(s: &str, pos: usize) -> (r: Option<(TypeProfile, usize)>)
    requires
        pos <= s@.len(),
    ensures
        r matches Some((p, j)) ==> pos < j <= s@.len() && p.wf() && s@.subrange(
            pos as int,
            j as int,
        ) == render_type_profile(p),
{
    let total = s.unicode_len();
    let mut cur = match expect_char(s, pos, '{') {
        Some(p) => p,
        None => {
            return None;
        },
    };
    let mut counts: Vec<(String, u64)> = Vec::new();
    let mut sum: u64 = 0;
    let mut count: usize = 0;
    if cur < total && s.get_char(cur) == '}' {
        let p = TypeProfile { type_counts: counts, total_observations: sum };
        proof {
            assert(s@.subrange(pos as int, cur + 1 as int) =~= render_type_profile(p));
        }
        return Some((p, cur + 1));
    }
    loop
        invariant
            total == s@.len(),
            total <= usize::MAX,
            pos < cur <= total,
            crate::profiler::distinct_names(counts@),
            count == counts@.len(),
            s@.subrange(pos as int, cur as int) =~= seq!['{'] + names_body(
                counts@,
                count as int,
            ),
        decreases total - cur,
    {
        if count > 0 {
            cur = match expect_char(s, cur, ',') {
                Some(p) => p,
                None => {
                    return None;
                },
            };
        }
        let ghost consumed0 = s@.subrange(pos as int, cur as int);
        let (name, p1) = match parse_name(s, cur) {
            Some(x) => x,
            None => {
                return None;
            },
        };
        let p2 = match expect_char(s, p1, ':') {
            Some(p) => p,
            None => {
                return None;
            },
        };
        let (v, p3) = match parse_u64(s, p2) {
            Some(x) => x,
            None => {
                return None;
            },
        };
        if has_name(&counts, &name) {
            return None;
        }
        proof {
            crate::profiler::lemma_find_name_from(counts@, name@, 0);
        }
        let ghost counts0 = counts@;
        counts.push((name, v));
        sum = match sum.checked_add(v) {
            Some(x) => x,
            None => u64::MAX,
        };
        proof {
            assert forall|i2: int, j2: int|
                0 <= i2 < j2 < counts@.len() implies (#[trigger] counts@[i2]).0@ != (
            #[trigger] counts@[j2]).0@ by {
                if j2 == counts@.len() - 1 {
                    assert(counts@[i2] == counts0[i2]);
                }
            }
            lemma_names_body_prefix(counts0, counts@, count as int);
            assert(counts@[count as int] == (counts@[count as int].0, v));
            assert(s@.subrange(pos as int, p3 as int) =~= seq!['{'] + names_body(
                counts@,
                count + 1,
            )) by {
                assert(s@.subrange(cur as int, p3 as int) =~= s@.subrange(cur as int, p1 as int)
                    + s@.subrange(p1 as int, p2 as int) + s@.subrange(p2 as int, p3 as int));
                assert(s@.subrange(pos as int, p3 as int) =~= s@.subrange(pos as int, cur as int)
                    + s@.subrange(cur as int, p3 as int));
                if count == 0 {
                    assert(consumed0 =~= seq!['{']);
                } else {
                    assert(consumed0 =~= seq!['{'] + names_body(counts0, count as int)
                        + seq![',']) by {
                        assert(s@.subrange(pos as int, cur as int) =~= s@.subrange(
                            pos as int,
                            (cur - 1) as int,
                        ) + s@.subrange((cur - 1) as int, cur as int));
                    }
                }
            }
        }
        count = counts.len();
        cur = p3;
        if cur < total && s.get_char(cur) == '}' {
            let p = TypeProfile { type_counts: counts, total_observations: sum };
            proof {
                assert(s@.subrange(pos as int, cur + 1 as int) =~= s@.subrange(
                    pos as int,
                    cur as int,
                ) + seq!['}']);
                assert(s@.subrange(pos as int, cur + 1 as int) =~= render_type_profile(p));
            }
            return Some((p, cur + 1));
        }
        if cur >= total {
            return None;
        }
        if s.get_char(cur) != ',' {
            return None;
        }
    }
}

/// Read the type-profile table at `pos`: the consumed text is exactly the
/// rendering of the returned map; its keys are distinct and each stored
/// profile keeps distinct names.
fn parse_type_profiles(s: &str, pos: usize) -> (r: Option<(KeyMap<TypeProfile>, usize)>)
    requires
        pos <= s@.len(),
    ensures
        r matches Some((m, j)) ==> pos < j <= s@.len() && m.wf() && (forall|pc: usize|
            (#[trigger] m.get_spec(pc)) matches Some(p) ==> p.wf()) && s@.subrange(
            pos as int,
            j as int,
        ) == render_type_profiles(m.entries@),
        pos + 1 < s@.len() && s@[pos as int] == '{' && s@[pos + 1] == '}' ==> (r matches Some(
            (m, j),
        ) && m.entries@.len() == 0 && j == pos + 2),
{
    let total = s.unicode_len();
    let mut cur = match expect_char(s, pos, '{') {
        Some(p) => p,
        None => {
            return None;
        },
    };
    let mut m: KeyMap<TypeProfile> = KeyMap::new();
    let mut count: usize = 0;
    if cur < total && s.get_char(cur) == '}' {
        proof {
            assert(s@.subrange(pos as int, cur + 1 as int) =~= render_type_profiles(m.entries@));
        }
        return Some((m, cur + 1));
    }
    loop
        invariant
            total == s@.len(),
            total <= usize::MAX,
            pos < cur <= total,
            !(pos + 1 < s@.len() && s@[pos as int] == '{' && s@[pos + 1] == '}'),
            m.wf(),
            count == m.entries@.len(),
            forall|i: int| 0 <= i < m.entries@.len() ==> (#[trigger] m.entries@[i]).1.wf(),
            s@.subrange(pos as int, cur as int) =~= seq!['{'] + tp_body(m.entries@, count as int),
        decreases total - cur,
    {
        if count > 0 {
            cur = match expect_char(s, cur, ',') {
                Some(p) => p,
                None => {
                    return None;
                },
            };
        }
        let ghost consumed0 = s@.subrange(pos as int, cur as int);
        let (k, p1) = match parse_quoted_key(s, cur) {
            Some(x) => x,
            None => {
                return None;
            },
        };
        let p2 = match expect_char(s, p1, ':') {
            Some(p) => p,
            None => {
                return None;
            },
        };
        let (prof, p3) = match parse_type_profile(s, p2) {
            Some(x) => x,
            None => {
                return None;
            },
        };
        if m.contains_key(k) {
            return None;
        }
        let ghost entries0 = m.entries@;
        m.insert(k, prof);
        proof {
            assert(m.entries@ =~= entries0.push((k, m.entries@[count as int].1)));
            lemma_tp_body_prefix(entries0, m.entries@, count as int);
            assert(s@.subrange(pos as int, p3 as int) =~= seq!['{'] + tp_body(
                m.entries@,
                count + 1,
            )) by {
                assert(s@.subrange(cur as int, p3 as int) =~= s@.subrange(cur as int, p1 as int)
                    + s@.subrange(p1 as int, p2 as int) + s@.subrange(p2 as int, p3 as int));
                assert(s@.subrange(pos as int, p3 as int) =~= s@.subrange(pos as int, cur as int)
                    + s@.subrange(cur as int, p3 as int));
                if count == 0 {
                    assert(consumed0 =~= seq!['{']);
                } else {
                    assert(consumed0 =~= seq!['{'] + tp_body(entries0, count as int) + seq![','])
                        by {
                        assert(s@.subrange(pos as int, cur as int) =~= s@.subrange(
                            pos as int,
                            (cur - 1) as int,
                        ) + s@.subrange((cur - 1) as int, cur as int));
                    }
                }
            }
            assert forall|i: int|
                0 <= i < m.entries@.len() implies (#[trigger] m.entries@[i]).1.wf() by {
                if i < count {
                    assert(m.entries@[i] == entries0[i]);
                }
            }
        }
        count = m.len();
        cur = p3;
        if cur < total && s.get_char(cur) == '}' {
            proof {
                assert(s@.subrange(pos as int, cur + 1 as int) =~= s@.subrange(
                    pos as int,
                    cur as int,
                ) + seq!['}']);
                assert(s@.subrange(pos as int, cur + 1 as int) =~= render_type_profiles(
                    m.entries@,
                ));
                assert forall|pc: usize|
                    ((#[trigger] m.get_spec(pc)) matches Some(p) ==> p.wf()) by {
                    crate::assoc::lemma_find_key_from(m.entries@, pc, 0);
                }
            }
            return Some((m, cur + 1));
        }
        if cur >= total {
            return None;
        }
        if s.get_char(cur) != ',' {
            return None;
        }
    }
}

/// Read the branch-profile table at `pos`: the consumed text is exactly
/// the rendering of the returned map, whose keys are distinct.
#[verifier::rlimit(60)]
fn parse_branch_profiles(s: &str, pos: usize) -> (r: Option<(KeyMap<BranchProfile>, usize)>)
    requires
        pos <= s@.len(),
    ensures
        r matches Some((m, j)) ==> pos < j <= s@.len() && m.wf() && s@.subrange(
            pos as int,
            j as int,
        ) == render_branch_profiles(m.entries@),
        pos + 1 < s@.len() && s@[pos as int] == '{' && s@[pos + 1] == '}' ==> (r matches Some(
            (m, j),
        ) && m.entries@.len() == 0 && j == pos + 2),
{
    let total = s.unicode_len();
    let mut cur = match expect_char(s, pos, '{') {
        Some(p) => p,
        None => {
            return None;
        },
    };
    let mut m: KeyMap<BranchProfile> = KeyMap::new();
    let mut count: usize = 0;
    if cur < total && s.get_char(cur) == '}' {
        proof {
            assert(s@.subrange(pos as int, cur + 1 as int) =~= render_branch_profiles(
                m.entries@,
            ));
        }
        return Some((m, cur + 1));
    }
    loop
        invariant
            total == s@.len(),
            total <= usize::MAX,
            pos < cur <= total,
            !(pos + 1 < s@.len() && s@[pos as int] == '{' && s@[pos + 1] == '}'),
            m.wf(),
            count == m.entries@.len(),
            s@.subrange(pos as int, cur as int) =~= seq!['{'] + bp_body(m.entries@, count as int),
        decreases total - cur,
    {
        if count > 0 {
            cur = match expect_char(s, cur, ',') {
                Some(p) => p,
                None => {
                    return None;
                },
            };
        }
        let ghost consumed0 = s@.subrange(pos as int, cur as int);
        let (k, p1) = match parse_quoted_key(s, cur) {
            Some(x) => x,
            None => {
                return None;
            },
        };
        let p2 = match expect_char(s, p1, ':') {
            Some(p) => p,
            None => {
                return None;
            },
        };
        let p3 = match expect_char(s, p2, '[') {
            Some(p) => p,
            None => {
                return None;
            },
        };
        let (taken, p4) = match parse_u64(s, p3) {
            Some(x) => x,
            None => {
                return None;
            },
        };
        let p5 = match expect_char(s, p4, ',') {
            Some(p) => p,
            None => {
                return None;
            },
        };
        let (not_taken, p6) = match parse_u64(s, p5) {
            Some(x) => x,
            None => {
                return None;
            },
        };
        let p7 = match expect_char(s, p6, ']') {
            Some(p) => p,
            None => {
                return None;
            },
        };
        if m.contains_key(k) {
            return None;
        }
        let ghost entries0 = m.entries@;
        m.insert(k, BranchProfile { taken_count: taken, not_taken_count: not_taken });
        proof {
            assert(m.entries@ =~= entries0.push((k, m.entries@[count as int].1)));
            lemma_bp_body_prefix(entries0, m.entries@, count as int);
            assert(s@.subrange(pos as int, p7 as int) =~= seq!['{'] + bp_body(
                m.entries@,
                count + 1,
            )) by {
                assert(s@.subrange(cur as int, p7 as int) =~= s@.subrange(cur as int, p1 as int)
                    + s@.subrange(p1 as int, p2 as int) + s@.subrange(p2 as int, p3 as int)
                    + s@.subrange(p3 as int, p4 as int) + s@.subrange(p4 as int, p5 as int)
                    + s@.subrange(p5 as int, p6 as int) + s@.subrange(p6 as int, p7 as int));
                assert(s@.subrange(pos as int, p7 as int) =~= s@.subrange(pos as int, cur as int)
                    + s@.subrange(cur as int, p7 as int));
                if count == 0 {
                    assert(consumed0 =~= seq!['{']);
                } else {
                    assert(consumed0 =~= seq!['{'] + bp_body(entries0, count as int) + seq![','])
                        by {
                        assert(s@.subrange(pos as int, cur as int) =~= s@.subrange(
                            pos as int,
                            (cur - 1) as int,
                        ) + s@.subrange((cur - 1) as int, cur as int));
                    }
                }
            }
        }
        count = m.len();
        cur = p7;
        if cur < total && s.get_char(cur) == '}' {
            proof {
                assert(s@.subrange(pos as int, cur + 1 as int) =~= s@.subrange(
                    pos as int,
                    cur as int,
                ) + seq!['}']);
                assert(s@.subrange(pos as int, cur + 1 as int) =~= render_branch_profiles(
                    m.entries@,
                ));
            }
            return Some((m, cur + 1));
        }
        if cur >= total {
            return None;
        }
        if s.get_char(cur) != ',' {
            return None;
        }
    }
}

impl HotSpotProfiler {
    /// Parse a profile document and install its four tables; the rest of
    /// the profiler's state stays. On success the document is exactly the
    /// rendering of the installed tables, so a further export returns it
    /// verbatim; invalid data is an error that changes nothing; the
    /// document of empty tables is always accepted.
    pub fn import_profile_data(&mut self, data: &str) -> (r: Result<(), String>)
        requires
            old(self).wf(),
        ensures
            final(self).wf(),
            r is Err ==> *final(self) == *old(self),
            data@ == render_document(
                Seq::<(usize, u64)>::empty(),
                Seq::<(usize, u64)>::empty(),
                Seq::<(usize, TypeProfile)>::empty(),
                Seq::<(usize, BranchProfile)>::empty(),
            ) ==> r is Ok,
            r is Ok ==> data@ == render_document(
                final(self).function_counts.entries@,
                final(self).loop_counts.entries@,
                final(self).type_profiles.entries@,
                final(self).branch_profiles.entries@,
            ) && *final(self) == (HotSpotProfiler {
                function_counts: final(self).function_counts,
                loop_counts: final(self).loop_counts,
                type_profiles: final(self).type_profiles,
                branch_profiles: final(self).branch_profiles,
                ..*old(self)
            }),
    {
        proof {
            reveal_strlit("{\"function_counts\":");
            reveal_strlit(",\"loop_counts\":");
            reveal_strlit(",\"type_profiles\":");
            reveal_strlit(",\"branch_profiles\":");
            reveal_strlit("}");
        }
        let total = data.unicode_len();
        proof {
            if data@ == render_document(
                Seq::<(usize, u64)>::empty(),
                Seq::<(usize, u64)>::empty(),
                Seq::<(usize, TypeProfile)>::empty(),
                Seq::<(usize, BranchProfile)>::empty(),
            ) {
                assert(render_counts(Seq::<(usize, u64)>::empty()) =~= seq!['{', '}']);
                assert(render_type_profiles(Seq::<(usize, TypeProfile)>::empty()) =~= seq![
                    '{',
                    '}',
                ]);
                assert(render_branch_profiles(Seq::<(usize, BranchProfile)>::empty()) =~= seq![
                    '{',
                    '}',
                ]);
                assert(data@.len() == 79);
                assert(data@.subrange(0, 19) =~= "{\"function_counts\":"@);
                assert(data@.subrange(19, 21) =~= seq!['{', '}']);
                assert(data@.subrange(19, 21)[0] == '{' && data@.subrange(19, 21)[1] == '}');
                assert(data@[19] == '{' && data@[20] == '}');
                assert(data@.subrange(21, 36) =~= ",\"loop_counts\":"@);
                assert(data@.subrange(36, 38) =~= seq!['{', '}']);
                assert(data@.subrange(36, 38)[0] == '{' && data@.subrange(36, 38)[1] == '}');
                assert(data@[36] == '{' && data@[37] == '}');
                assert(data@.subrange(38, 55) =~= ",\"type_profiles\":"@);
                assert(data@.subrange(55, 57) =~= seq!['{', '}']);
                assert(data@.subrange(55, 57)[0] == '{' && data@.subrange(55, 57)[1] == '}');
                assert(data@[55] == '{' && data@[56] == '}');
                assert(data@.subrange(57, 76) =~= ",\"branch_profiles\":"@);
                assert(data@.subrange(76, 78) =~= seq!['{', '}']);
                assert(data@.subrange(76, 78)[0] == '{' && data@.subrange(76, 78)[1] == '}');
                assert(data@[76] == '{' && data@[77] == '}');
                assert(data@.subrange(78, 79) =~= seq!['}']);
                assert(data@.subrange(78, 79)[0] == '}');
                assert(data@[78] == '}');
            }
        }
        let err: &str = "Failed to parse profile data";
        let p0 = match expect_lit(data, 0, "{\"function_counts\":") {
            Some(p) => p,
            None => {
                return Err(err.to_owned());
            },
        };
        let (fc, p1) = match parse_counts(data, p0) {
            Some(x) => x,
            None => {
                return Err(err.to_owned());
            },
        };
        let p2 = match expect_lit(data, p1, ",\"loop_counts\":") {
            Some(p) => p,
            None => {
                return Err(err.to_owned());
            },
        };
        let (lc, p3) = match parse_counts(data, p2) {
            Some(x) => x,
            None => {
                return Err(err.to_owned());
            },
        };
        let p4 = match expect_lit(data, p3, ",\"type_profiles\":") {
            Some(p) => p,
            None => {
                return Err(err.to_owned());
            },
        };
        let (tp, p5) = match parse_type_profiles(data, p4) {
            Some(x) => x,
            None => {
                return Err(err.to_owned());
            },
        };
        let p6 = match expect_lit(data, p5, ",\"branch_profiles\":") {
            Some(p) => p,
            None => {
                return Err(err.to_owned());
            },
        };
        let (bp, p7) = match parse_branch_profiles(data, p6) {
            Some(x) => x,
            None => {
                return Err(err.to_owned());
            },
        };
        let p8 = match expect_char(data, p7, '}') {
            Some(p) => p,
            None => {
                return Err(err.to_owned());
            },
        };
        if p8 != total {
            return Err(err.to_owned());
        }
        proof {
            assert(data@ =~= data@.subrange(0, p0 as int) + data@.subrange(p0 as int, p1 as int)
                + data@.subrange(p1 as int, p2 as int) + data@.subrange(p2 as int, p3 as int)
                + data@.subrange(p3 as int, p4 as int) + data@.subrange(p4 as int, p5 as int)
                + data@.subrange(p5 as int, p6 as int) + data@.subrange(p6 as int, p7 as int)
                + data@.subrange(p7 as int, p8 as int));
            assert(data@ =~= render_document(fc.entries@, lc.entries@, tp.entries@, bp.entries@));
        }
        self.function_counts = fc;
        self.loop_counts = lc;
        self.type_profiles = tp;
        self.branch_profiles = bp;
        Ok(())
    }
}

/// Profiler idempotence over the profile document: exporting a profiler,
/// importing the document into another profiler, and exporting that one
/// yields the same document verbatim. The first clause is what
/// `export_profile_data` ensures of the document it rendered from the
/// first profiler; the second is what `import_profile_data` ensures of
/// the profiler it filled from that document; the third is what a second
/// export ensures of that profiler.
pub proof fn lemma_profile_round_trip(
    exporter: HotSpotProfiler,
    doc: Seq<char>,
    importer: HotSpotProfiler,
    re_exported: Seq<char>,
)
    requires
        doc == render_document(
            exporter.function_counts.entries@,
            exporter.loop_counts.entries@,
            exporter.type_profiles.entries@,
            exporter.branch_profiles.entries@,
        ),
        doc == render_document(
            importer.function_counts.entries@,
            importer.loop_counts.entries@,
            importer.type_profiles.entries@,
            importer.branch_profiles.entries@,
        ),
        re_exported == render_document(
            importer.function_counts.entries@,
            importer.loop_counts.entries@,
            importer.type_profiles.entries@,
            importer.branch_profiles.entries@,
        ),
    ensures
        re_exported == doc,
{
}

} // verus!
