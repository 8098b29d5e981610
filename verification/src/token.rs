//! Request tokens.
//!
//! A token correlates one HTTP submission with the asynchronous events it
//! produces, so tokens of distinct submissions must never collide. Each token
//! is minted as the bridge's current submission serial, written in decimal,
//! followed by a dash and a freshly drawn random identifier. The serial prefix
//! alone already makes any two tokens minted under distinct serials distinct,
//! which is proved here; the random part keeps the token unguessable.

use vstd::prelude::*;
use vstd::string::StringExecFns;

verus! {

/// The decimal digit character for `d` (meaningful for `0 <= d <= 9`).
pub open spec fn dec_digit(d: int) -> char {
    if d == 0 {
        '0'
    } else if d == 1 {
        '1'
    } else if d == 2 {
        '2'
    } else if d == 3 {
        '3'
    } else if d == 4 {
        '4'
    } else if d == 5 {
        '5'
    } else if d == 6 {
        '6'
    } else if d == 7 {
        '7'
    } else if d == 8 {
        '8'
    } else {
        '9'
    }
}

/// The decimal form of `n`, most significant digit first.
pub open spec fn dec(n: int) -> Seq<char>
    decreases n,
{
    if n < 10 {
        seq![dec_digit(n)]
    } else {
        dec(n / 10) + seq![dec_digit(n % 10)]
    }
}

/// The decimal form is never empty.
pub proof fn lemma_dec_len(n: int)
    ensures
        dec(n).len() >= 1,
    decreases n,
{
    if n >= 10 {
        lemma_dec_len(n / 10);
    }
}

/// Every character of a decimal form is a digit, in particular not a dash.
pub proof fn lemma_dec_no_dash(n: int)
    requires
        n >= 0,
    ensures
        forall|i: int| 0 <= i < dec(n).len() ==> #[trigger] dec(n)[i] != '-',
    decreases n,
{
    if n >= 10 {
        lemma_dec_no_dash(n / 10);
        let p = dec(n / 10);
        assert forall|i: int| 0 <= i < dec(n).len() implies dec(n)[i] != '-' by {
            if i < p.len() {
                assert(dec(n)[i] == p[i]);
            } else {
                assert(dec(n)[i] == dec_digit(n % 10));
            }
        };
    }
}

/// Decimal forms determine their numbers: equal forms mean equal values.
pub proof fn lemma_dec_injective(a: int, b: int)
    requires
        a >= 0,
        b >= 0,
        dec(a) == dec(b),
    ensures
        a == b,
    decreases a,
{
    lemma_dec_len(a);
    lemma_dec_len(b);
    if a < 10 && b < 10 {
        assert(dec(a) == seq![dec_digit(a)]);
        assert(dec(b) == seq![dec_digit(b)]);
        assert(seq![dec_digit(a)][0] == dec_digit(a));
        assert(seq![dec_digit(b)][0] == dec_digit(b));
        assert(dec_digit(a) == dec_digit(b));
    } else if a < 10 {
        lemma_dec_len(b / 10);
        assert(dec(b).len() >= 2);
    } else if b < 10 {
        lemma_dec_len(a / 10);
        assert(dec(a).len() >= 2);
    } else {
        let pa = dec(a / 10);
        let pb = dec(b / 10);
        assert(dec(a).len() == pa.len() + 1);
        assert(dec(b).len() == pb.len() + 1);
        assert(pa.len() == pb.len());
        assert(dec(a)[pa.len() as int] == dec_digit(a % 10));
        assert(dec(b)[pb.len() as int] == dec_digit(b % 10));
        assert(a % 10 == b % 10);
        assert forall|i: int| 0 <= i < pa.len() implies pa[i] == pb[i] by {
            assert(dec(a)[i] == pa[i]);
            assert(dec(b)[i] == pb[i]);
        };
        assert(pa =~= pb);
        lemma_dec_injective(a / 10, b / 10);
        vstd::arithmetic::div_mod::lemma_fundamental_div_mod(a, 10);
        vstd::arithmetic::div_mod::lemma_fundamental_div_mod(b, 10);
    }
}

/// The digit slice for `d`.
fn digit_str(d: u64) -> (s: &'static str)
    requires
        d < 10,
    ensures
        s@ == seq![dec_digit(d as int)],
{
    let s: &'static str = if d == 0 {
        "0"
    } else if d == 1 {
        "1"
    } else if d == 2 {
        "2"
    } else if d == 3 {
        "3"
    } else if d == 4 {
        "4"
    } else if d == 5 {
        "5"
    } else if d == 6 {
        "6"
    } else if d == 7 {
        "7"
    } else if d == 8 {
        "8"
    } else {
        "9"
    };
    proof {
        reveal_strlit("0");
        reveal_strlit("1");
        reveal_strlit("2");
        reveal_strlit("3");
        reveal_strlit("4");
        reveal_strlit("5");
        reveal_strlit("6");
        reveal_strlit("7");
        reveal_strlit("8");
        reveal_strlit("9");
        assert(s@ =~= seq![dec_digit(d as int)]);
    }
    s
}

/// Writes `n` in decimal.
pub fn u64_dec(n: u64) -> (s: String)
    ensures
        s@ == dec(n as int),
    decreases n,
{
    if n < 10 {
        digit_str(n).to_owned()
    } else {
        let mut s = u64_dec(n / 10);
        s.append(digit_str(n % 10));
        s
    }
}

/// Relies on `uuid::Uuid::new_v4` and its display form: a freshly drawn random
/// 128-bit identifier rendered as hyphenated lowercase hex. Randomness allows
/// no claim about the value.
#[verifier::external_body]
fn fresh_uuid() -> String {
    uuid::Uuid::new_v4().to_string()
}

/// `t` begins with the decimal form of `serial`, followed by a dash: the shape
/// every minted token has, and all that token distinctness rests on.
pub open spec fn token_has_serial(t: Seq<char>, serial: u64) -> bool {
    let d = dec(serial as int);
    &&& t.len() > d.len()
    &&& t.subrange(0, d.len() as int) == d
    &&& t[d.len() as int] == '-'
}

/// Mints the token for submission number `serial`: the serial in decimal, a
/// dash, and a random identifier.
pub fn mint_token(serial: u64) -> (t: String)
    ensures
        token_has_serial(t@, serial),
{
    let mut t = u64_dec(serial);
    let ghost d = t@;
    t.append("-");
    let id = fresh_uuid();
    t.append(id.as_str());
    proof {
        reveal_strlit("-");
        assert(t@.subrange(0, d.len() as int) =~= d);
        assert(t@[d.len() as int] == '-');
    }
    t
}

/// Law: tokens minted under distinct serials are distinct, whatever their
/// random parts hold. Every submission stamps the bridge's current serial into
/// the front of its token and advances the serial inside the same critical
/// section, so the tokens of distinct submissions are pairwise distinct no
/// matter how many submissions run concurrently.
pub proof fn lemma_distinct_serials_distinct_tokens(t1: Seq<char>, s1: u64, t2: Seq<char>, s2: u64)
    requires
        token_has_serial(t1, s1),
        token_has_serial(t2, s2),
        s1 != s2,
    ensures
        t1 != t2,
{
    if t1 == t2 {
        let d1 = dec(s1 as int);
        let d2 = dec(s2 as int);
        lemma_dec_no_dash(s1 as int);
        lemma_dec_no_dash(s2 as int);
        assert(forall|i: int| 0 <= i < d1.len() ==> #[trigger] t1[i] == d1[i]);
        assert(forall|i: int| 0 <= i < d2.len() ==> #[trigger] t2[i] == d2[i]);
        if d1.len() < d2.len() {
            assert(t1[d1.len() as int] == '-');
            assert(t2[d1.len() as int] == d2[d1.len() as int]);
            assert(false);
        } else if d2.len() < d1.len() {
            assert(t2[d2.len() as int] == '-');
            assert(t1[d2.len() as int] == d1[d2.len() as int]);
            assert(false);
        } else {
            assert(d1 =~= d2);
            lemma_dec_injective(s1 as int, s2 as int);
        }
    }
}

} // verus!
