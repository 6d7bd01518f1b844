//! The capability SID: the identity that a sandboxed command's writes are
//! checked against.

use vstd::prelude::*;

use crate::text::{
    decimal, decimal_value, law_decimal_is_injective, law_decimal_is_read_back, lemma_decimal_digits, push_decimal,
    push_text,
};

verus! {

/// A security identifier of the form `S-1-5-21-a-b-c-d`.
#[derive(Clone, Copy, Debug, PartialEq, Eq, Structural)]
pub struct CapabilitySid {
    pub a: u32,
    pub b: u32,
    pub c: u32,
    pub d: u32,
}

/// The text of a capability SID.
pub open spec fn sid_text(sid: CapabilitySid) -> Seq<char> {
    "S-1-5-21-"@ + decimal(sid.a as nat) + "-"@ + decimal(sid.b as nat) + "-"@ + decimal(sid.c as nat) + "-"@
        + decimal(sid.d as nat)
}

/// `rand::random` for a `u32`: any number may come, so nothing is said of it.
#[verifier::external_body]
fn random_u32() -> u32 {
    rand::random()
}

/// Generate a random per-session capability SID. Using a fresh SID for each
/// command means stale ACEs left behind by a crash reference a SID no live
/// token holds, so they're harmless.
pub(crate) fn random_capability_sid() -> CapabilitySid {
    let a: u32 = random_u32();
    let b: u32 = random_u32();
    let c: u32 = random_u32();
    let d: u32 = random_u32();
    CapabilitySid { a, b, c, d }
}

impl CapabilitySid {
    /// The SID's text form.
    pub fn text(&self) -> (r: String)
        ensures
            r@ == sid_text(*self),
    {
        let mut out = String::new();
        push_text(&mut out, "S-1-5-21-");
        push_decimal(&mut out, self.a);
        push_text(&mut out, "-");
        push_decimal(&mut out, self.b);
        push_text(&mut out, "-");
        push_decimal(&mut out, self.c);
        push_text(&mut out, "-");
        push_decimal(&mut out, self.d);
        assert(out@ =~= sid_text(*self));
        out
    }
}

/// Numbers before a dash are told apart from what follows it.
proof fn lemma_first_number(m: nat, n: nat, s: Seq<char>, t: Seq<char>)
    requires
        decimal(m) + "-"@ + s == decimal(n) + "-"@ + t,
    ensures
        m == n,
        s == t,
{
    reveal_strlit("-");
    let x = decimal(m);
    let y = decimal(n);
    let l = x + "-"@ + s;
    let r = y + "-"@ + t;
    assert("-"@.len() == 1 && "-"@[0] == '-');
    lemma_decimal_digits(m);
    lemma_decimal_digits(n);
    if x.len() < y.len() {
        assert(l[x.len() as int] == '-');
        assert(r[x.len() as int] == y[x.len() as int]);
    } else if y.len() < x.len() {
        assert(r[y.len() as int] == '-');
        assert(l[y.len() as int] == x[y.len() as int]);
    }
    assert forall|i: int| 0 <= i < x.len() implies x[i] == y[i] by {
        assert(l[i] == x[i] && r[i] == y[i]);
    }
    assert(x =~= y);
    law_decimal_is_injective(m, n);
    assert(l.len() == r.len());
    assert forall|i: int| 0 <= i < s.len() implies s[i] == t[i] by {
        assert(l[x.len() + 1 + i] == s[i] && r[y.len() + 1 + i] == t[i]);
    }
    assert(s =~= t);
}

/// The text behind the prefix, number by number.
spec fn numbers_text(sid: CapabilitySid) -> Seq<char> {
    decimal(sid.a as nat) + "-"@ + (decimal(sid.b as nat) + "-"@ + (decimal(sid.c as nat) + "-"@ + decimal(
        sid.d as nat,
    )))
}

proof fn lemma_concat_assoc(a: Seq<char>, b: Seq<char>, c: Seq<char>)
    ensures
        a + b + c == a + (b + c),
{
    assert(a + b + c =~= a + (b + c));
}

proof fn lemma_sid_text_parts(sid: CapabilitySid)
    ensures
        sid_text(sid) == "S-1-5-21-"@ + numbers_text(sid),
{
    let p = "S-1-5-21-"@;
    let h = "-"@;
    let a = decimal(sid.a as nat);
    let b = decimal(sid.b as nat);
    let c = decimal(sid.c as nat);
    let d = decimal(sid.d as nat);
    lemma_concat_assoc(p + a + h + b + h + c, h, d);
    lemma_concat_assoc(p + a + h + b + h, c, h + d);
    lemma_concat_assoc(c, h, d);
    lemma_concat_assoc(p + a + h + b, h, c + h + d);
    lemma_concat_assoc(p + a + h, b, h + (c + h + d));
    lemma_concat_assoc(b, h, c + h + d);
    lemma_concat_assoc(p + a, h, b + h + (c + h + d));
    lemma_concat_assoc(p, a, h + (b + h + (c + h + d)));
    lemma_concat_assoc(a, h, b + h + (c + h + d));
}

/// Two commands share a capability SID's text only where they share the SID.
pub proof fn law_sid_text_is_injective(x: CapabilitySid, y: CapabilitySid)
    ensures
        sid_text(x) == sid_text(y) ==> x == y,
{
    if sid_text(x) == sid_text(y) {
        let p = "S-1-5-21-"@;
        lemma_sid_text_parts(x);
        lemma_sid_text_parts(y);
        assert((p + numbers_text(x)).skip(p.len() as int) =~= numbers_text(x));
        assert((p + numbers_text(y)).skip(p.len() as int) =~= numbers_text(y));
        let x3 = decimal(x.c as nat) + "-"@ + decimal(x.d as nat);
        let y3 = decimal(y.c as nat) + "-"@ + decimal(y.d as nat);
        lemma_first_number(x.a as nat, y.a as nat, decimal(x.b as nat) + "-"@ + x3, decimal(y.b as nat) + "-"@ + y3);
        lemma_first_number(x.b as nat, y.b as nat, x3, y3);
        lemma_first_number(x.c as nat, y.c as nat, decimal(x.d as nat), decimal(y.d as nat));
        law_decimal_is_injective(x.d as nat, y.d as nat);
    }
}

/// The parts of a text between its dashes.
pub open spec fn parts_between_dashes(text: Seq<char>) -> Seq<Seq<char>>
    decreases text.len(),
{
    if text.len() == 0 {
        seq![seq![]]
    } else {
        let before = parts_between_dashes(text.drop_last());
        if text.last() == '-' {
            before.push(seq![])
        } else {
            before.drop_last().push(before.last().push(text.last()))
        }
    }
}

proof fn lemma_parts_grow(text: Seq<char>, part: Seq<char>)
    requires
        forall|i: int| 0 <= i < part.len() ==> #[trigger] part[i] != '-',
    ensures
        parts_between_dashes(text + seq!['-'] + part) == parts_between_dashes(text).push(part),
    decreases part.len(),
{
    let whole = text + seq!['-'] + part;
    if part.len() == 0 {
        assert(whole.drop_last() =~= text);
        assert(part =~= seq![]);
    } else {
        let front = part.drop_last();
        lemma_parts_grow(text, front);
        assert(whole.drop_last() =~= text + seq!['-'] + front);
        let before = parts_between_dashes(text).push(front);
        assert(before.drop_last() =~= parts_between_dashes(text));
        assert(front.push(part.last()) =~= part);
    }
}

/// The text of a capability SID has eight parts between its dashes: those of
/// `S-1-5-21`, and then its four numbers, each in decimal.
pub proof fn law_sid_text_has_the_numbers(sid: CapabilitySid)
    ensures
        ({
            let parts = parts_between_dashes(sid_text(sid));
            &&& parts.len() == 8
            &&& parts[0] == seq!['S']
            &&& parts[1] == seq!['1']
            &&& parts[2] == seq!['5']
            &&& parts[3] == seq!['2', '1']
            &&& decimal_value(parts[4]) == sid.a
            &&& decimal_value(parts[5]) == sid.b
            &&& decimal_value(parts[6]) == sid.c
            &&& decimal_value(parts[7]) == sid.d
            &&& forall|i: int, j: int|
                4 <= i < 8 && 0 <= j < parts[i].len() ==> 48 <= (#[trigger] parts[i][j]) as int <= 57
            &&& forall|i: int| 4 <= i < 8 ==> (#[trigger] parts[i]).len() > 0
            &&& forall|i: int| 4 <= i < 8 && (#[trigger] parts[i]).len() > 1 ==> parts[i][0] as int != 48
        }),
{
    let a = decimal(sid.a as nat);
    let b = decimal(sid.b as nat);
    let c = decimal(sid.c as nat);
    let d = decimal(sid.d as nat);
    law_decimal_is_read_back(sid.a as nat);
    law_decimal_is_read_back(sid.b as nat);
    law_decimal_is_read_back(sid.c as nat);
    law_decimal_is_read_back(sid.d as nat);
    reveal_strlit("S-1-5-21-");
    reveal_strlit("-");
    let dash = seq!['-'];
    assert("-"@ =~= dash);
    let s = seq!['S'];
    assert(s.drop_last() =~= seq![]);
    assert(parts_between_dashes(seq![]) =~= seq![seq![]]);
    assert(parts_between_dashes(s) =~= seq![s]) by {
        let before = parts_between_dashes(s.drop_last());
        assert(before.drop_last() =~= seq![]);
        assert(before.last().push('S') =~= s);
    }
    let t1 = s + dash + seq!['1'];
    let t2 = t1 + dash + seq!['5'];
    let t3 = t2 + dash + seq!['2', '1'];
    lemma_parts_grow(s, seq!['1']);
    lemma_parts_grow(t1, seq!['5']);
    lemma_parts_grow(t2, seq!['2', '1']);
    assert("S-1-5-21-"@ =~= t3 + dash);
    let t4 = t3 + dash + a;
    let t5 = t4 + dash + b;
    let t6 = t5 + dash + c;
    let t7 = t6 + dash + d;
    lemma_parts_grow(t3, a);
    lemma_parts_grow(t4, b);
    lemma_parts_grow(t5, c);
    lemma_parts_grow(t6, d);
    assert(sid_text(sid) == t7);
    assert(parts_between_dashes(t7) =~= seq![s, seq!['1'], seq!['5'], seq!['2', '1'], a, b, c, d]);
}

} // verus!
