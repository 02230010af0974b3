//! The unit of work: one entry staged for enrichment, and the configuration
//! values every component receives by parameter.

use vstd::prelude::*;
use vstd::string::StringExecFns;

verus! {

/// One entry pending enrichment. `id` is assigned upstream and serves both
/// as the queue key suffix and as the identifier handed to the commit call;
/// `content` is the payload subject to enrichment; `feed_id` is provenance,
/// carried through but never interpreted.
pub struct Entry {
    pub id: u64,
    pub title: String,
    pub url: String,
    pub content: String,
    pub feed_id: u64,
}

/// The mathematical model of an [`Entry`]: the same fields over sequences.
pub struct EntryModel {
    pub id: u64,
    pub title: Seq<char>,
    pub url: Seq<char>,
    pub content: Seq<char>,
    pub feed_id: u64,
}

impl View for Entry {
    type V = EntryModel;

    open spec fn view(&self) -> EntryModel {
        EntryModel {
            id: self.id,
            title: self.title@,
            url: self.url@,
            content: self.content@,
            feed_id: self.feed_id,
        }
    }
}

impl Clone for Entry {
    fn clone(&self) -> (r: Self)
        ensures
            r@ == self@,
    {
        Entry {
            id: self.id,
            title: self.title.clone(),
            url: self.url.clone(),
            content: self.content.clone(),
            feed_id: self.feed_id,
        }
    }
}

/// Content-store connection values: base URL, credentials, and the shared
/// webhook secret.
pub struct Miniflux {
    pub url: String,
    pub username: String,
    pub password: String,
    pub webhook_secret: String,
}

/// Enrichment-service connection values: base URL, bearer token, and the
/// model identifier.
pub struct CloudflareAi {
    pub url: String,
    pub token: String,
    pub model: String,
}

/// The immutable configuration constructed once per invocation and passed by
/// parameter to every component; never ambient global state.
pub struct Config {
    pub miniflux: Miniflux,
    pub cloudflare_ai: CloudflareAi,
}

/// The ten decimal digit characters, least value first.
pub open spec fn dec_digits() -> Seq<char> {
    seq!['0', '1', '2', '3', '4', '5', '6', '7', '8', '9']
}

/// The decimal rendering of a natural number, most significant digit first,
/// with no leading zeros (`"0"` for zero).
pub open spec fn dec_str(n: nat) -> Seq<char>
    decreases n,
{
    if n < 10 {
        seq![dec_digits()[n as int]]
    } else {
        dec_str(n / 10) + seq![dec_digits()[(n % 10) as int]]
    }
}

/// The queue key of the entry with identifier `id`: the fixed namespace
/// prefix followed by the decimal identifier.
pub open spec fn entry_key(id: u64) -> Seq<char> {
    "entry:"@ + dec_str(id as nat)
}

/// The numeric value a decimal digit character denotes.
pub open spec fn dec_digit_val(c: char) -> nat {
    if c == '0' {
        0
    } else if c == '1' {
        1
    } else if c == '2' {
        2
    } else if c == '3' {
        3
    } else if c == '4' {
        4
    } else if c == '5' {
        5
    } else if c == '6' {
        6
    } else if c == '7' {
        7
    } else if c == '8' {
        8
    } else {
        9
    }
}

/// The number a decimal rendering denotes, most significant digit first.
pub open spec fn dec_val(s: Seq<char>) -> nat
    decreases s.len(),
{
    if s.len() == 0 {
        0
    } else {
        dec_val(s.drop_last()) * 10 + dec_digit_val(s.last())
    }
}

/// Decimal rendering loses nothing: parsing the rendering returns the
/// number.
pub proof fn lemma_dec_str_roundtrip(n: nat)
    ensures
        dec_val(dec_str(n)) == n,
    decreases n,
{
    if n < 10 {
        let s = dec_str(n);
        assert(s == seq![dec_digits()[n as int]]);
        assert(s.drop_last().len() == 0);
        assert(dec_val(s.drop_last()) == 0);
        assert(s.last() == dec_digits()[n as int]);
        assert(dec_digit_val(dec_digits()[n as int]) == n);
        assert(dec_val(s) == dec_val(s.drop_last()) * 10 + dec_digit_val(s.last()));
        assert(dec_val(s) == n);
    } else {
        lemma_dec_str_roundtrip(n / 10);
        let s = dec_str(n);
        assert(s == dec_str(n / 10) + seq![dec_digits()[(n % 10) as int]]);
        assert(s.drop_last() =~= dec_str(n / 10));
        assert(s.last() == dec_digits()[(n % 10) as int]);
        assert(dec_digit_val(dec_digits()[(n % 10) as int]) == n % 10);
        assert(dec_val(s) == dec_val(s.drop_last()) * 10 + dec_digit_val(s.last()));
        assert(dec_val(s.drop_last()) == n / 10);
        vstd::arithmetic::div_mod::lemma_fundamental_div_mod(n as int, 10);
        assert(dec_val(s) == (n / 10) * 10 + (n % 10));
        assert(dec_val(s) == n);
    }
}

/// Distinct identifiers occupy distinct queue keys: the key determines the
/// identifier.
pub proof fn lemma_entry_key_injective(a: u64, b: u64)
    requires
        entry_key(a) == entry_key(b),
    ensures
        a == b,
{
    let p = "entry:"@;
    let sa = dec_str(a as nat);
    let sb = dec_str(b as nat);
    assert((p + sa).len() == (p + sb).len());
    assert(sa =~= sb) by {
        assert forall|i: int| 0 <= i < sa.len() implies sa[i] == sb[i] by {
            assert(sa[i] == (p + sa)[p.len() + i]);
            assert(sb[i] == (p + sb)[p.len() + i]);
        }
    }
    lemma_dec_str_roundtrip(a as nat);
    lemma_dec_str_roundtrip(b as nat);
}

fn dec_digit_str(d: u64) -> (r: &'static str)
    requires
        d < 10,
    ensures
        r@ == seq![dec_digits()[d as int]],
{
    proof {
        reveal_strlit("0");
        reveal_strlit("1");
        reveal_strlit("2");
        reveal_strlit("3");
        reveal_strlit("4");
        reveal_strlit("5");
        reveal_strlit("6");
        reveal_strlit("7");
        reveal_strlit("8");
        reveal_strlit("9");
    }
    let r: &'static str = if d == 0 {
        "0"
    } else if d == 1 {
        "1"
    } else if d == 2 {
        "2"
    } else if d == 3 {
        "3"
    } else if d == 4 {
        "4"
    } else if d == 5 {
        "5"
    } else if d == 6 {
        "6"
    } else if d == 7 {
        "7"
    } else if d == 8 {
        "8"
    } else {
        "9"
    };
    proof {
        assert(r@ =~= seq![dec_digits()[d as int]]);
    }
    r
}

/// Renders an identifier in decimal, most significant digit first.
pub fn u64_to_dec(n: u64) -> (r: String)
    ensures
        r@ == dec_str(n as nat),
    decreases n,
{
    let last = dec_digit_str(n % 10);
    if n < 10 {
        last.to_owned()
    } else {
        let mut r = u64_to_dec(n / 10);
        r.append(last);
        r
    }
}

/// Builds the queue key `entry:<id>` for an entry identifier.
pub fn make_entry_key(id: u64) -> (r: String)
    ensures
        r@ == entry_key(id),
{
    let mut r = "entry:".to_owned();
    let digits = u64_to_dec(id);
    r.append(digits.as_str());
    r
}

} // verus!
