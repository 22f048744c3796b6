//! Account identities: validity, and the names derived for spawned actors
//! and for registry records.
use vstd::prelude::*;
use vstd::string::{StrSliceExecFns, StringExecFns};

verus! {

/// A character that separates the parts of an account id.
pub open spec fn is_separator(c: char) -> bool {
    c == '-' || c == '_' || c == '.'
}

/// A character that may stand in an account id.
pub open spec fn is_account_char(c: char) -> bool {
    ('a' <= c <= 'z') || ('0' <= c <= '9') || is_separator(c)
}

/// A well-formed NEAR account id: 2 to 64 characters, lower-case letters,
/// digits and separators, with no separator first, last or beside another.
pub open spec fn valid_account_id(s: Seq<char>) -> bool {
    &&& 2 <= s.len() <= 64
    &&& forall|i: int| 0 <= i < s.len() ==> is_account_char(#[trigger] s[i])
    &&& !is_separator(s[0])
    &&& !is_separator(s.last())
    &&& forall|i: int| 0 <= i < s.len() - 1 ==> !(is_separator(#[trigger] s[i]) && is_separator(s[i + 1]))
}

/// Relies on `near_sdk::env::is_valid_account_id`: the platform's rule for
/// account ids, which accepts exactly the ids described by
/// `valid_account_id` (its allowed characters are all one byte long).
#[verifier::external_body]
pub(crate) fn is_valid_account_id(s: &String) -> (r: bool)
    ensures
        r == valid_account_id(s@),
{
    near_sdk::env::is_valid_account_id(s.as_bytes())
}

/// The hexadecimal digit for `n`, which is below 16.
pub open spec fn hex_digit(n: int) -> char {
    if n == 0 {
        '0'
    } else if n == 1 {
        '1'
    } else if n == 2 {
        '2'
    } else if n == 3 {
        '3'
    } else if n == 4 {
        '4'
    } else if n == 5 {
        '5'
    } else if n == 6 {
        '6'
    } else if n == 7 {
        '7'
    } else if n == 8 {
        '8'
    } else if n == 9 {
        '9'
    } else if n == 10 {
        'a'
    } else if n == 11 {
        'b'
    } else if n == 12 {
        'c'
    } else if n == 13 {
        'd'
    } else if n == 14 {
        'e'
    } else {
        'f'
    }
}

/// A character that an encoded string may hold: a hex digit or `u`.
pub open spec fn is_code_char(c: char) -> bool {
    ('0' <= c <= '9') || ('a' <= c <= 'f') || c == 'u'
}

/// The code of one character: its two hex digits below 0x80, else `u` and
/// its six hex digits.
pub open spec fn encode_char(c: char) -> Seq<char> {
    let v = c as u32 as int;
    if v < 128 {
        seq![hex_digit(v / 16), hex_digit(v % 16)]
    } else {
        seq![
            'u',
            hex_digit(v / 16 / 16 / 16 / 16 / 16 % 16),
            hex_digit(v / 16 / 16 / 16 / 16 % 16),
            hex_digit(v / 16 / 16 / 16 % 16),
            hex_digit(v / 16 / 16 % 16),
            hex_digit(v / 16 % 16),
            hex_digit(v % 16),
        ]
    }
}

/// A string written with hex digits and `u` alone, one code per character,
/// so that distinct strings have distinct encodings.
pub open spec fn encode(s: Seq<char>) -> Seq<char>
    decreases s.len(),
{
    if s.len() == 0 {
        seq![]
    } else {
        encode_char(s[0]) + encode(s.subrange(1, s.len() as int))
    }
}

proof fn lemma_hex_digit(n: int, m: int)
    requires
        0 <= n < 16,
        0 <= m < 16,
    ensures
        is_code_char(hex_digit(n)),
        hex_digit(n) != 'u',
        hex_digit(n) == hex_digit(m) ==> n == m,
{
}

proof fn lemma_encode_char(c: char)
    ensures
        encode_char(c).len() == if (c as u32) < 128 { 2int } else { 7int },
        (encode_char(c)[0] == 'u') == ((c as u32) >= 128),
        forall|i: int| 0 <= i < encode_char(c).len() ==> is_code_char(#[trigger] encode_char(c)[i]),
{
    let v = c as u32 as int;
    lemma_hex_digit(v / 16 % 16, 0);
    lemma_hex_digit(v % 16, 0);
    if v < 128 {
        lemma_hex_digit(v / 16, 0);
    }
    lemma_hex_digit(v / 16 / 16 / 16 / 16 / 16 % 16, 0);
    lemma_hex_digit(v / 16 / 16 / 16 / 16 % 16, 0);
    lemma_hex_digit(v / 16 / 16 / 16 % 16, 0);
    lemma_hex_digit(v / 16 / 16 % 16, 0);
}

proof fn lemma_digits_determine(v1: int, v2: int)
    requires
        0 <= v1 < 16777216,
        0 <= v2 < 16777216,
        v1 % 16 == v2 % 16,
        v1 / 16 % 16 == v2 / 16 % 16,
        v1 / 16 / 16 % 16 == v2 / 16 / 16 % 16,
        v1 / 16 / 16 / 16 % 16 == v2 / 16 / 16 / 16 % 16,
        v1 / 16 / 16 / 16 / 16 % 16 == v2 / 16 / 16 / 16 / 16 % 16,
        v1 / 16 / 16 / 16 / 16 / 16 % 16 == v2 / 16 / 16 / 16 / 16 / 16 % 16,
    ensures
        v1 == v2,
{
    let a5 = v1 / 16 / 16 / 16 / 16 / 16;
    let b5 = v2 / 16 / 16 / 16 / 16 / 16;
    let a4 = v1 / 16 / 16 / 16 / 16;
    let b4 = v2 / 16 / 16 / 16 / 16;
    let a3 = v1 / 16 / 16 / 16;
    let b3 = v2 / 16 / 16 / 16;
    let a2 = v1 / 16 / 16;
    let b2 = v2 / 16 / 16;
    let a1 = v1 / 16;
    let b1 = v2 / 16;
    assert(a1 < 1048576);
    assert(a2 < 65536);
    assert(a3 < 4096);
    assert(a4 < 256);
    assert(a5 < 16);
    assert(b1 < 1048576);
    assert(b2 < 65536);
    assert(b3 < 4096);
    assert(b4 < 256);
    assert(b5 < 16);
    assert(a5 == b5);
    assert(a4 == 16 * a5 + a4 % 16);
    assert(b4 == 16 * b5 + b4 % 16);
    assert(a4 == b4);
    assert(a3 == 16 * a4 + a3 % 16);
    assert(b3 == 16 * b4 + b3 % 16);
    assert(a3 == b3);
    assert(a2 == 16 * a3 + a2 % 16);
    assert(b2 == 16 * b3 + b2 % 16);
    assert(a2 == b2);
    assert(a1 == 16 * a2 + a1 % 16);
    assert(b1 == 16 * b2 + b1 % 16);
    assert(a1 == b1);
}

proof fn lemma_digit_eq(s1: Seq<char>, s2: Seq<char>, i: int, n: int, m: int)
    requires
        s1 == s2,
        0 <= i < s1.len(),
        0 <= n < 16,
        0 <= m < 16,
        s1[i] == hex_digit(n),
        s2[i] == hex_digit(m),
    ensures
        n == m,
{
    lemma_hex_digit(n, m);
}

proof fn lemma_encode_char_injective(c1: char, c2: char)
    requires
        encode_char(c1) == encode_char(c2),
    ensures
        c1 == c2,
{
    let v1 = c1 as u32 as int;
    let v2 = c2 as u32 as int;
    let e1 = encode_char(c1);
    let e2 = encode_char(c2);
    lemma_encode_char(c1);
    lemma_encode_char(c2);
    if v1 < 128 {
        lemma_digit_eq(e1, e2, 0, v1 / 16, v2 / 16);
        lemma_digit_eq(e1, e2, 1, v1 % 16, v2 % 16);
    } else {
        lemma_digit_eq(e1, e2, 1, v1 / 16 / 16 / 16 / 16 / 16 % 16, v2 / 16 / 16 / 16 / 16 / 16 % 16);
        lemma_digit_eq(e1, e2, 2, v1 / 16 / 16 / 16 / 16 % 16, v2 / 16 / 16 / 16 / 16 % 16);
        lemma_digit_eq(e1, e2, 3, v1 / 16 / 16 / 16 % 16, v2 / 16 / 16 / 16 % 16);
        lemma_digit_eq(e1, e2, 4, v1 / 16 / 16 % 16, v2 / 16 / 16 % 16);
        lemma_digit_eq(e1, e2, 5, v1 / 16 % 16, v2 / 16 % 16);
        lemma_digit_eq(e1, e2, 6, v1 % 16, v2 % 16);
        lemma_digits_determine(v1, v2);
    }
}

proof fn lemma_encode_code_chars(s: Seq<char>)
    ensures
        forall|i: int| 0 <= i < encode(s).len() ==> is_code_char(#[trigger] encode(s)[i]),
    decreases s.len(),
{
    if s.len() > 0 {
        let a = encode_char(s[0]);
        let b = encode(s.subrange(1, s.len() as int));
        lemma_encode_char(s[0]);
        lemma_encode_code_chars(s.subrange(1, s.len() as int));
        assert(encode(s) == a + b);
        assert forall|i: int| 0 <= i < encode(s).len() implies is_code_char(#[trigger] encode(s)[i]) by {
            if i < a.len() {
                assert(encode(s)[i] == a[i]);
            } else {
                assert(encode(s)[i] == b[i - a.len()]);
            }
        }
    }
}

proof fn lemma_encode_push(s: Seq<char>, c: char)
    ensures
        encode(s.push(c)) == encode(s) + encode_char(c),
    decreases s.len(),
{
    let t = s.push(c);
    if s.len() == 0 {
        assert(t.subrange(1, t.len() as int).len() == 0);
        assert(encode(t.subrange(1, t.len() as int)) =~= Seq::<char>::empty());
        assert(t[0] == c);
        assert(encode(s) =~= Seq::<char>::empty());
        assert(encode(t) =~= encode(s) + encode_char(c));
    } else {
        let rest = s.subrange(1, s.len() as int);
        assert(t.subrange(1, t.len() as int) =~= rest.push(c));
        assert(t[0] == s[0]);
        lemma_encode_push(rest, c);
        assert(encode(t) == encode_char(s[0]) + (encode(rest) + encode_char(c)));
        assert(encode(s) == encode_char(s[0]) + encode(rest));
        assert(encode(t) =~= encode(s) + encode_char(c));
    }
}

/// Distinct strings have distinct encodings.
pub proof fn lemma_encode_injective(s1: Seq<char>, s2: Seq<char>)
    requires
        encode(s1) == encode(s2),
    ensures
        s1 == s2,
    decreases s1.len(),
{
    if s1.len() == 0 {
        if s2.len() > 0 {
            lemma_encode_char(s2[0]);
        }
        assert(s1 =~= s2);
    } else {
        lemma_encode_char(s1[0]);
        if s2.len() == 0 {
            assert(encode(s2).len() == 0);
        } else {
            lemma_encode_char(s2[0]);
            let e = encode(s1);
            assert(e[0] == encode_char(s1[0])[0]);
            assert(e[0] == encode_char(s2[0])[0]);
            let k = encode_char(s1[0]).len() as int;
            assert(encode_char(s1[0]) =~= e.subrange(0, k));
            assert(encode_char(s2[0]) =~= e.subrange(0, k));
            lemma_encode_char_injective(s1[0], s2[0]);
            let r1 = s1.subrange(1, s1.len() as int);
            let r2 = s2.subrange(1, s2.len() as int);
            assert(encode(r1) =~= e.subrange(k, e.len() as int));
            assert(encode(r2) =~= e.subrange(k, e.len() as int));
            lemma_encode_injective(r1, r2);
            assert(s1 =~= seq![s1[0]] + r1);
            assert(s2 =~= seq![s2[0]] + r2);
        }
    }
}

proof fn lemma_split(a1: Seq<char>, b1: Seq<char>, a2: Seq<char>, b2: Seq<char>, sep: char)
    requires
        forall|i: int| 0 <= i < a1.len() ==> a1[i] != sep,
        forall|i: int| 0 <= i < a2.len() ==> a2[i] != sep,
        a1 + seq![sep] + b1 == a2 + seq![sep] + b2,
    ensures
        a1 == a2,
        b1 == b2,
{
    let x = a1 + seq![sep] + b1;
    if a1.len() < a2.len() {
        assert(x[a1.len() as int] == sep);
        assert(x[a1.len() as int] == a2[a1.len() as int]);
    } else if a2.len() < a1.len() {
        assert(x[a2.len() as int] == sep);
        assert(x[a2.len() as int] == a1[a2.len() as int]);
    }
    assert(a1 =~= x.subrange(0, a1.len() as int));
    assert(a2 =~= x.subrange(0, a2.len() as int));
    assert(b1 =~= x.subrange(a1.len() as int + 1, x.len() as int));
    assert(b2 =~= x.subrange(a2.len() as int + 1, x.len() as int));
}

proof fn lemma_strip_suffix(a1: Seq<char>, a2: Seq<char>, r: Seq<char>)
    requires
        a1 + r == a2 + r,
    ensures
        a1 == a2,
{
    assert(a1 =~= (a1 + r).subrange(0, a1.len() as int));
    assert(a2 =~= (a2 + r).subrange(0, a2.len() as int));
}

/// The registry's key for an asset: contract id and token id joined by `/`.
pub open spec fn nft_address_of(contract: Seq<char>, token_id: Seq<char>) -> Seq<char> {
    contract + seq!['/'] + token_id
}

/// The sub-account of the registry that holds the share ledger of one asset:
/// the encoded contract id and the encoded token id joined by `-`.
pub open spec fn shares_name_of(contract: Seq<char>, token_id: Seq<char>, registry: Seq<char>) -> Seq<char> {
    encode(contract) + seq!['-'] + encode(token_id) + seq!['.'] + registry
}

/// The sub-account of the registry that stands for one asset contract: the
/// encoded contract id, with no `-`, so no ledger has the same name.
pub open spec fn wrapper_name_of(contract: Seq<char>, registry: Seq<char>) -> Seq<char> {
    encode(contract) + seq!['.'] + registry
}

/// An encoding is at least as long as what it encodes.
pub proof fn lemma_encode_len(s: Seq<char>)
    ensures
        encode(s).len() >= s.len(),
    decreases s.len(),
{
    if s.len() > 0 {
        lemma_encode_char(s[0]);
        lemma_encode_len(s.subrange(1, s.len() as int));
    }
}

proof fn lemma_no_separator(s: Seq<char>)
    ensures
        forall|i: int| 0 <= i < encode(s).len() ==> #[trigger] encode(s)[i] != '-' && encode(s)[i] != '.',
{
    lemma_encode_code_chars(s);
}

/// Distinct assets get distinct share-ledger names under one registry.
pub proof fn lemma_shares_names_injective(
    c1: Seq<char>,
    t1: Seq<char>,
    c2: Seq<char>,
    t2: Seq<char>,
    registry: Seq<char>,
)
    requires
        shares_name_of(c1, t1, registry) == shares_name_of(c2, t2, registry),
    ensures
        c1 == c2,
        t1 == t2,
{
    lemma_no_separator(c1);
    lemma_no_separator(c2);
    let b1 = encode(t1) + seq!['.'] + registry;
    let b2 = encode(t2) + seq!['.'] + registry;
    assert(shares_name_of(c1, t1, registry) =~= encode(c1) + seq!['-'] + b1);
    assert(shares_name_of(c2, t2, registry) =~= encode(c2) + seq!['-'] + b2);
    lemma_split(encode(c1), b1, encode(c2), b2, '-');
    lemma_encode_injective(c1, c2);
    assert(b1 =~= (encode(t1) + seq!['.']) + registry);
    assert(b2 =~= (encode(t2) + seq!['.']) + registry);
    lemma_strip_suffix(encode(t1) + seq!['.'], encode(t2) + seq!['.'], registry);
    assert(encode(t1) =~= (encode(t1) + seq!['.']).drop_last());
    assert(encode(t2) =~= (encode(t2) + seq!['.']).drop_last());
    lemma_encode_injective(t1, t2);
}

/// Distinct asset contracts get distinct wrapper names under one registry.
pub proof fn lemma_wrapper_names_injective(c1: Seq<char>, c2: Seq<char>, registry: Seq<char>)
    requires
        wrapper_name_of(c1, registry) == wrapper_name_of(c2, registry),
    ensures
        c1 == c2,
{
    lemma_strip_suffix(encode(c1) + seq!['.'], encode(c2) + seq!['.'], registry);
    assert(encode(c1) =~= (encode(c1) + seq!['.']).drop_last());
    assert(encode(c2) =~= (encode(c2) + seq!['.']).drop_last());
    lemma_encode_injective(c1, c2);
}

/// No share-ledger name is a wrapper name under the same registry.
pub proof fn lemma_names_disjoint(c: Seq<char>, t: Seq<char>, w: Seq<char>, registry: Seq<char>)
    ensures
        shares_name_of(c, t, registry) != wrapper_name_of(w, registry),
{
    if shares_name_of(c, t, registry) == wrapper_name_of(w, registry) {
        let a = encode(c) + seq!['-'] + encode(t) + seq!['.'];
        let b = encode(w) + seq!['.'];
        assert(shares_name_of(c, t, registry) =~= a + registry);
        assert(wrapper_name_of(w, registry) =~= b + registry);
        lemma_strip_suffix(a, b, registry);
        lemma_no_separator(w);
        let i = encode(c).len() as int;
        assert(a[i] == '-');
        assert(i < encode(w).len());
        assert(b[i] == encode(w)[i]);
    }
}

/// Distinct assets get distinct keys, where neither contract id holds `/`
/// (no valid account id does).
pub proof fn lemma_nft_addresses_injective(c1: Seq<char>, t1: Seq<char>, c2: Seq<char>, t2: Seq<char>)
    requires
        forall|i: int| 0 <= i < c1.len() ==> c1[i] != '/',
        forall|i: int| 0 <= i < c2.len() ==> c2[i] != '/',
        nft_address_of(c1, t1) == nft_address_of(c2, t2),
    ensures
        c1 == c2,
        t1 == t2,
{
    lemma_split(c1, t1, c2, t2, '/');
}

/// A valid account id holds no `/`.
pub proof fn lemma_valid_has_no_slash(s: Seq<char>)
    requires
        valid_account_id(s),
    ensures
        forall|i: int| 0 <= i < s.len() ==> s[i] != '/',
{
    assert forall|i: int| 0 <= i < s.len() implies s[i] != '/' by {
        assert(is_account_char(s[i]));
    }
}

fn hex_str(n: u32) -> (r: &'static str)
    requires
        n < 16,
    ensures
        r@ == seq![hex_digit(n as int)],
{
    match n {
        0 => {
            proof {
                reveal_strlit("0");
            }
            "0"
        },
        1 => {
            proof {
                reveal_strlit("1");
            }
            "1"
        },
        2 => {
            proof {
                reveal_strlit("2");
            }
            "2"
        },
        3 => {
            proof {
                reveal_strlit("3");
            }
            "3"
        },
        4 => {
            proof {
                reveal_strlit("4");
            }
            "4"
        },
        5 => {
            proof {
                reveal_strlit("5");
            }
            "5"
        },
        6 => {
            proof {
                reveal_strlit("6");
            }
            "6"
        },
        7 => {
            proof {
                reveal_strlit("7");
            }
            "7"
        },
        8 => {
            proof {
                reveal_strlit("8");
            }
            "8"
        },
        9 => {
            proof {
                reveal_strlit("9");
            }
            "9"
        },
        10 => {
            proof {
                reveal_strlit("a");
            }
            "a"
        },
        11 => {
            proof {
                reveal_strlit("b");
            }
            "b"
        },
        12 => {
            proof {
                reveal_strlit("c");
            }
            "c"
        },
        13 => {
            proof {
                reveal_strlit("d");
            }
            "d"
        },
        14 => {
            proof {
                reveal_strlit("e");
            }
            "e"
        },
        _ => {
            proof {
                reveal_strlit("f");
            }
            "f"
        },
    }
}

fn append_code(r: &mut String, c: char)
    ensures
        final(r)@ == old(r)@ + encode_char(c),
{
    let v = c as u32;
    if v < 128 {
        r.append(hex_str(v / 16));
        r.append(hex_str(v % 16));
    } else {
        proof {
            reveal_strlit("u");
        }
        r.append("u");
        r.append(hex_str(v / 16 / 16 / 16 / 16 / 16 % 16));
        r.append(hex_str(v / 16 / 16 / 16 / 16 % 16));
        r.append(hex_str(v / 16 / 16 / 16 % 16));
        r.append(hex_str(v / 16 / 16 % 16));
        r.append(hex_str(v / 16 % 16));
        r.append(hex_str(v % 16));
    }
    assert(final(r)@ =~= old(r)@ + encode_char(c));
}

/// The encoding of `s`: a code of hex digits (and `u`) per character.
pub fn encode_str(s: &String) -> (r: String)
    ensures
        r@ == encode(s@),
{
    let n = s.as_str().unicode_len();
    let mut r = String::new();
    let mut i: usize = 0;
    while i < n
        invariant
            n == s@.len(),
            i <= n,
            r@ == encode(s@.subrange(0, i as int)),
        decreases n - i,
    {
        let c = s.as_str().get_char(i);
        proof {
            lemma_encode_push(s@.subrange(0, i as int), c);
            assert(s@.subrange(0, i + 1) =~= s@.subrange(0, i as int).push(c));
        }
        append_code(&mut r, c);
        i = i + 1;
    }
    assert(s@.subrange(0, n as int) =~= s@);
    r
}

/// The registry's key for an asset: contract id and token id joined by `/`.
pub fn get_nft_address(contract_address: String, token_id: String) -> (r: String)
    ensures
        r@ == nft_address_of(contract_address@, token_id@),
{
    proof {
        reveal_strlit("/");
    }
    let r = contract_address.concat("/").concat(token_id.as_str());
    r
}

/// The account of the share ledger that securitizes `token_id` of contract
/// `target`, as a sub-account of the registry `registry_id`.
pub fn get_shares_contract_name(target: String, token_id: String, registry_id: String) -> (r: String)
    ensures
        r@ == shares_name_of(target@, token_id@, registry_id@),
{
    proof {
        reveal_strlit("-");
        reveal_strlit(".");
    }
    let r = encode_str(&target).concat("-").concat(encode_str(&token_id).as_str()).concat(".").concat(
        registry_id.as_str(),
    );
    r
}

/// The account of the wrapper that stands for `asset_contract`, as a
/// sub-account of the registry `registry_id`.
pub fn get_wrapper_name(asset_contract: &String, registry_id: &String) -> (r: String)
    ensures
        r@ == wrapper_name_of(asset_contract@, registry_id@),
{
    proof {
        reveal_strlit(".");
    }
    let r = encode_str(asset_contract).concat(".").concat(registry_id.as_str());
    r
}

} // verus!
