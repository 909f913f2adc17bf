//! Hostname pattern expansion: a template holding one `[a-z]{n}` token
//! expands to every `n`-letter lowercase word, in lexicographic order,
//! substituted for the token. Only the first token is expanded; the rest of
//! the template passes through literally.

use vstd::prelude::*;
use vstd::arithmetic::div_mod::lemma_div_is_ordered;
use vstd::arithmetic::div_mod::lemma_div_pos_is_pos;
use vstd::arithmetic::div_mod::lemma_fundamental_div_mod;
use vstd::arithmetic::div_mod::lemma_fundamental_div_mod_converse;
use vstd::arithmetic::div_mod::lemma_mod_bound;
use vstd::arithmetic::div_mod::lemma_multiply_divide_lt;
use vstd::string::StringExecFns;
use vstd::string::StrSliceExecFns;
use crate::timefmt::digit_val;
use crate::timefmt::is_digit_char;

verus! {

/// 26 to the `n`.
pub open spec fn pow26(n: nat) -> nat
    decreases n,
{
    if n == 0 {
        1
    } else {
        26 * pow26((n - 1) as nat)
    }
}

pub proof fn lemma_pow26_pos(n: nat)
    ensures
        pow26(n) >= 1,
    decreases n,
{
    if n > 0 {
        lemma_pow26_pos((n - 1) as nat);
    }
}

/// The `i`-th lowercase letter.
pub open spec fn letter(i: int) -> char {
    (97 + i) as char
}

/// The `k`-th `n`-letter lowercase word in lexicographic order: the base-26
/// digits of `k`, most significant first.
pub open spec fn kth_combo(k: int, n: nat) -> Seq<char>
    decreases n,
{
    if n == 0 {
        Seq::empty()
    } else {
        seq![letter(k / (pow26((n - 1) as nat) as int))] + kth_combo(
            k % (pow26((n - 1) as nat) as int),
            (n - 1) as nat,
        )
    }
}

/// All words `prefix` grows into with `gap` more letters, in order.
pub open spec fn combo_block(prefix: Seq<char>, gap: nat) -> Seq<Seq<char>> {
    Seq::new(pow26(gap), |k: int| prefix + kth_combo(k, gap))
}

/// The `c`-th lowercase letter, as a one-character string slice.
fn letter_str(c: u8) -> (r: &'static str)
    requires
        c < 26,
    ensures
        r@ =~= seq![letter(c as int)],
{
    let r = match c {
        0 => "a",
        1 => "b",
        2 => "c",
        3 => "d",
        4 => "e",
        5 => "f",
        6 => "g",
        7 => "h",
        8 => "i",
        9 => "j",
        10 => "k",
        11 => "l",
        12 => "m",
        13 => "n",
        14 => "o",
        15 => "p",
        16 => "q",
        17 => "r",
        18 => "s",
        19 => "t",
        20 => "u",
        21 => "v",
        22 => "w",
        23 => "x",
        24 => "y",
        _ => "z",
    };
    proof {
        reveal_strlit("a");
        reveal_strlit("b");
        reveal_strlit("c");
        reveal_strlit("d");
        reveal_strlit("e");
        reveal_strlit("f");
        reveal_strlit("g");
        reveal_strlit("h");
        reveal_strlit("i");
        reveal_strlit("j");
        reveal_strlit("k");
        reveal_strlit("l");
        reveal_strlit("m");
        reveal_strlit("n");
        reveal_strlit("o");
        reveal_strlit("p");
        reveal_strlit("q");
        reveal_strlit("r");
        reveal_strlit("s");
        reveal_strlit("t");
        reveal_strlit("u");
        reveal_strlit("v");
        reveal_strlit("w");
        reveal_strlit("x");
        reveal_strlit("y");
        reveal_strlit("z");
    }
    r
}

/// Append to `combinations` every word that `prefix` grows into with
/// `length - prefix.len()` more lowercase letters, in lexicographic order.
pub fn generate_combinations(prefix: &str, length: usize, combinations: &mut Vec<String>)
    requires
        prefix@.len() <= length,
    ensures
        final(combinations).deep_view() == old(combinations).deep_view() + combo_block(
            prefix@,
            (length - prefix@.len()) as nat,
        ),
        final(combinations)@.len() == old(combinations)@.len() + pow26(
            (length - prefix@.len()) as nat,
        ),
    decreases length - prefix@.len(),
{
    let ghost gap = (length - prefix@.len()) as nat;
    let plen = prefix.unicode_len();
    if plen == length {
        combinations.push(String::from_str(prefix));
        proof {
            assert(prefix@ + kth_combo(0, 0) =~= prefix@);
            assert(combinations.deep_view() =~~= old(combinations).deep_view() + combo_block(
                prefix@,
                0,
            ));
        }
    } else {
        let ghost pre = *combinations;
        let ghost p26 = pow26((gap - 1) as nat) as int;
        proof {
            lemma_pow26_pos((gap - 1) as nat);
            assert(0 * p26 == 0) by (nonlinear_arith);
        }
        let mut c: u8 = 0;
        while c < 26
            invariant
                prefix@.len() < length,
                c <= 26,
                gap == (length - prefix@.len()) as nat,
                gap >= 1,
                p26 == pow26((gap - 1) as nat) as int,
                p26 >= 1,
                combinations.deep_view() == pre.deep_view() + Seq::new(
                    (c as int * p26) as nat,
                    |k: int| prefix@ + kth_combo(k, gap),
                ),
                combinations@.len() == pre@.len() + c as int * p26,
            decreases 26 - c,
        {
            let mut new_prefix = String::from_str(prefix);
            new_prefix.append(letter_str(c));
            proof {
                assert(new_prefix@.len() == prefix@.len() + 1);
            }
            generate_combinations(new_prefix.as_str(), length, combinations);
            proof {
                let cc = c as int;
                assert forall|j: int| 0 <= j < p26 implies (new_prefix@ + #[trigger] kth_combo(
                    j,
                    (gap - 1) as nat,
                )) =~= (prefix@ + kth_combo(cc * p26 + j, gap)) by {
                    lemma_fundamental_div_mod_converse(cc * p26 + j, p26, cc, j);
                    assert(kth_combo(cc * p26 + j, gap) == seq![letter(cc)] + kth_combo(
                        j,
                        (gap - 1) as nat,
                    ));
                }
                assert((cc + 1) * p26 == cc * p26 + p26) by (nonlinear_arith);
                assert(combinations.deep_view() =~~= pre.deep_view() + Seq::new(
                    ((cc + 1) * p26) as nat,
                    |k: int| prefix@ + kth_combo(k, gap),
                ));
            }
            c += 1;
        }
        proof {
            assert(26 * p26 == pow26(gap));
            assert(combinations.deep_view() =~~= old(combinations).deep_view() + combo_block(
                prefix@,
                gap,
            ));
        }
    }
}

/// `a` precedes `b` lexicographically: at the first differing position,
/// `a`'s character has the smaller code point.
pub open spec fn lex_lt(a: Seq<char>, b: Seq<char>) -> bool
    decreases a.len(),
{
    if a.len() == 0 || b.len() == 0 {
        false
    } else if (a[0] as u32) < (b[0] as u32) {
        true
    } else if a[0] == b[0] {
        lex_lt(a.drop_first(), b.drop_first())
    } else {
        false
    }
}

/// Every expansion word has exactly `n` letters.
pub proof fn lemma_kth_combo_len(k: int, n: nat)
    ensures
        kth_combo(k, n).len() == n,
    decreases n,
{
    if n > 0 {
        lemma_kth_combo_len(k % (pow26((n - 1) as nat) as int), (n - 1) as nat);
    }
}

/// The expansion words come out in strictly increasing lexicographic order.
pub proof fn lemma_combos_ordered(k1: int, k2: int, n: nat)
    requires
        0 <= k1 < k2 < pow26(n),
    ensures
        lex_lt(kth_combo(k1, n), kth_combo(k2, n)),
    decreases n,
{
    let p = pow26((n - 1) as nat) as int;
    lemma_pow26_pos((n - 1) as nat);
    let a = kth_combo(k1, n);
    let b = kth_combo(k2, n);
    let c1 = k1 / p;
    let c2 = k2 / p;
    let r1 = k1 % p;
    let r2 = k2 % p;
    lemma_fundamental_div_mod(k1, p);
    lemma_fundamental_div_mod(k2, p);
    lemma_div_pos_is_pos(k1, p);
    lemma_multiply_divide_lt(k2, p, 26);
    lemma_mod_bound(k1, p);
    lemma_mod_bound(k2, p);
    lemma_div_is_ordered(k1, k2, p);
    assert(0 <= c1 <= c2 < 26);
    if c1 < c2 {
        assert((a[0] as u32) < (b[0] as u32));
    } else {
        assert(r1 < r2);
        lemma_combos_ordered(r1, r2, (n - 1) as nat);
        assert(a.drop_first() =~= kth_combo(r1, (n - 1) as nat));
        assert(b.drop_first() =~= kth_combo(r2, (n - 1) as nat));
    }
}

/// Appending one shared suffix to two same-length ordered words keeps the
/// order.
proof fn lemma_lex_lt_suffix(a: Seq<char>, b: Seq<char>, suffix: Seq<char>)
    requires
        a.len() == b.len(),
        lex_lt(a, b),
    ensures
        lex_lt(a + suffix, b + suffix),
    decreases a.len(),
{
    assert((a + suffix)[0] == a[0]);
    assert((b + suffix)[0] == b[0]);
    if !((a[0] as u32) < (b[0] as u32)) {
        lemma_lex_lt_suffix(a.drop_first(), b.drop_first(), suffix);
        assert((a + suffix).drop_first() =~= a.drop_first() + suffix);
        assert((b + suffix).drop_first() =~= b.drop_first() + suffix);
    }
}

/// Prepending one shared prefix to two ordered words keeps the order.
proof fn lemma_lex_lt_prefix(prefix: Seq<char>, a: Seq<char>, b: Seq<char>)
    requires
        lex_lt(a, b),
    ensures
        lex_lt(prefix + a, prefix + b),
    decreases prefix.len(),
{
    if prefix.len() == 0 {
        assert(prefix + a =~= a);
        assert(prefix + b =~= b);
    } else {
        lemma_lex_lt_prefix(prefix.drop_first(), a, b);
        assert((prefix + a)[0] == prefix[0]);
        assert((prefix + b)[0] == prefix[0]);
        assert((prefix + a).drop_first() =~= prefix.drop_first() + a);
        assert((prefix + b).drop_first() =~= prefix.drop_first() + b);
        assert(a.len() > 0 && b.len() > 0);
    }
}

/// The hostnames a template expands to come out in strictly increasing
/// lexicographic order: the shared template prefix and suffix around
/// strictly ordered words.
pub proof fn lemma_expansion_ordered(p: Seq<char>, k1: int, k2: int)
    requires
        0 <= k1 < k2 < expand_pattern(p).len(),
    ensures
        lex_lt(expand_pattern(p)[k1], expand_pattern(p)[k2]),
{
    let t = find_token(p, 0);
    if t is Some {
        let s = t->Some_0;
        let cl = find_close(p, s + 6);
        if cl is Some {
            let e = cl->Some_0;
            let digits = p.subrange(s + 6, e);
            if digits.len() >= 1 && all_digit_chars(digits) && digits_val(digits) <= usize::MAX {
                let n = digits_val(digits) as nat;
                let prefix = p.subrange(0, s);
                let suffix = p.subrange(e + 1, p.len() as int);
                lemma_combos_ordered(k1, k2, n);
                lemma_kth_combo_len(k1, n);
                lemma_kth_combo_len(k2, n);
                lemma_lex_lt_suffix(kth_combo(k1, n), kth_combo(k2, n), suffix);
                lemma_lex_lt_prefix(prefix, kth_combo(k1, n) + suffix, kth_combo(k2, n) + suffix);
                assert(prefix + (kth_combo(k1, n) + suffix) =~= expand_pattern(p)[k1]);
                assert(prefix + (kth_combo(k2, n) + suffix) =~= expand_pattern(p)[k2]);
            }
        }
    }
}

/// An expansion token `[a-z]{` opens at position `i`.
pub open spec fn token_at(p: Seq<char>, i: int) -> bool {
    &&& 0 <= i
    &&& i + 6 <= p.len()
    &&& p[i] == '[' && p[i + 1] == 'a' && p[i + 2] == '-' && p[i + 3] == 'z' && p[i + 4] == ']'
        && p[i + 5] == '{'
}

/// The first token opening at or after position `i`.
pub open spec fn find_token(p: Seq<char>, i: int) -> Option<int>
    decreases p.len() - i,
    when 0 <= i <= p.len()
{
    if i + 6 > p.len() {
        None
    } else if token_at(p, i) {
        Some(i)
    } else {
        find_token(p, i + 1)
    }
}

/// The first `}` at or after position `i`.
pub open spec fn find_close(p: Seq<char>, i: int) -> Option<int>
    decreases p.len() - i,
    when 0 <= i <= p.len()
{
    if i >= p.len() {
        None
    } else if p[i] == '}' {
        Some(i)
    } else {
        find_close(p, i + 1)
    }
}

pub open spec fn all_digit_chars(s: Seq<char>) -> bool {
    forall|i: int| 0 <= i < s.len() ==> is_digit_char(#[trigger] s[i])
}

/// The number a run of decimal digits denotes, most significant first.
pub open spec fn digits_val(s: Seq<char>) -> int
    decreases s.len(),
{
    if s.len() == 0 {
        0
    } else {
        digits_val(s.drop_last()) * 10 + digit_val(s.last())
    }
}

proof fn lemma_digits_val_nonneg(s: Seq<char>)
    requires
        all_digit_chars(s),
    ensures
        digits_val(s) >= 0,
    decreases s.len(),
{
    if s.len() > 0 {
        assert(forall|i: int| 0 <= i < s.drop_last().len() ==> s.drop_last()[i] == s[i]);
        lemma_digits_val_nonneg(s.drop_last());
    }
}

/// A digit run denotes at least what any of its prefixes denotes.
proof fn lemma_digits_val_mono(s: Seq<char>, m: int)
    requires
        0 <= m <= s.len(),
        all_digit_chars(s),
    ensures
        digits_val(s) >= digits_val(s.subrange(0, m)),
    decreases s.len(),
{
    if m < s.len() {
        assert(forall|i: int| 0 <= i < s.drop_last().len() ==> s.drop_last()[i] == s[i]);
        lemma_digits_val_mono(s.drop_last(), m);
        assert(s.drop_last().subrange(0, m) =~= s.subrange(0, m));
        lemma_digits_val_nonneg(s.drop_last());
    } else {
        assert(s.subrange(0, m) =~= s);
    }
}

/// What a template expands to: with a first token `[a-z]{n}` present and its
/// digit count in range, every `n`-letter lowercase word substituted for the
/// token in lexicographic order; otherwise nothing. Tokens after the first
/// are left in the template text untouched.
pub open spec fn expand_pattern(p: Seq<char>) -> Seq<Seq<char>> {
    match find_token(p, 0) {
        Some(s) => match find_close(p, s + 6) {
            Some(e) => {
                let digits = p.subrange(s + 6, e);
                if digits.len() >= 1 && all_digit_chars(digits) && digits_val(digits)
                    <= usize::MAX {
                    let n = digits_val(digits) as nat;
                    Seq::new(
                        pow26(n),
                        |k: int| p.subrange(0, s) + kth_combo(k, n) + p.subrange(
                            e + 1,
                            p.len() as int,
                        ),
                    )
                } else {
                    Seq::empty()
                }
            },
            None => Seq::empty(),
        },
        None => Seq::empty(),
    }
}

/// Expand a hostname template holding one `[a-z]{n}` token into all of its
/// `26^n` hostnames, in lexicographic order. A template without a
/// well-formed token expands to nothing.
pub fn generate_hostnames_from_pattern(pattern: &str) -> (hostnames: Vec<String>)
    ensures
        hostnames.deep_view() == expand_pattern(pattern@),
{
    let n_chars = pattern.unicode_len();
    let mut hostnames: Vec<String> = Vec::new();

    let mut start: usize = 0;
    let mut found = false;
    while !found && n_chars >= 6 && start <= n_chars - 6
        invariant
            n_chars == pattern@.len(),
            start <= n_chars,
            !found ==> find_token(pattern@, 0) == find_token(pattern@, start as int),
            found ==> find_token(pattern@, 0) == Some(start as int) && token_at(
                pattern@,
                start as int,
            ),
        decreases n_chars - start + (if found {
            0int
        } else {
            1int
        }),
    {
        if pattern.get_char(start) == '[' && pattern.get_char(start + 1) == 'a'
            && pattern.get_char(start + 2) == '-' && pattern.get_char(start + 3) == 'z'
            && pattern.get_char(start + 4) == ']' && pattern.get_char(start + 5) == '{' {
            found = true;
        } else {
            proof {
                assert(find_token(pattern@, start as int) == find_token(
                    pattern@,
                    start as int + 1,
                ));
            }
            start += 1;
        }
    }
    if !found {
        proof {
            assert(find_token(pattern@, start as int) is None);
            assert(hostnames.deep_view() =~~= expand_pattern(pattern@));
        }
        return hostnames;
    }

    let s6 = start + 6;
    let mut e: usize = s6;
    let mut close_found = false;
    while !close_found && e < n_chars
        invariant
            n_chars == pattern@.len(),
            s6 == start + 6 <= e <= n_chars,
            !close_found ==> find_close(pattern@, s6 as int) == find_close(pattern@, e as int),
            close_found ==> find_close(pattern@, s6 as int) == Some(e as int) && e < n_chars
                && pattern@[e as int] == '}',
        decreases n_chars - e + (if close_found {
            0int
        } else {
            1int
        }),
    {
        if pattern.get_char(e) == '}' {
            close_found = true;
        } else {
            proof {
                assert(find_close(pattern@, e as int) == find_close(pattern@, e as int + 1));
            }
            e += 1;
        }
    }
    if !close_found {
        proof {
            assert(find_close(pattern@, e as int) is None);
            assert(hostnames.deep_view() =~~= expand_pattern(pattern@));
        }
        return hostnames;
    }

    let ghost digits = pattern@.subrange(s6 as int, e as int);
    let mut val: u128 = 0;
    let mut ok = true;
    let mut d: usize = s6;
    while ok && d < e
        invariant
            n_chars == pattern@.len(),
            e < n_chars,
            s6 <= d <= e,
            digits == pattern@.subrange(s6 as int, e as int),
            ok ==> {
                &&& all_digit_chars(pattern@.subrange(s6 as int, d as int))
                &&& val as int == digits_val(pattern@.subrange(s6 as int, d as int))
                &&& val <= usize::MAX as u128
            },
            !ok ==> !(digits.len() >= 1 && all_digit_chars(digits) && digits_val(digits)
                <= usize::MAX),
        decreases e - d + (if ok {
            1int
        } else {
            0int
        }),
    {
        let c = pattern.get_char(d);
        let u = c as u32;
        if 48 <= u && u <= 57 {
            let dv = (u - 48) as u128;
            proof {
                assert(val as int * 10 + dv as int <= usize::MAX as int * 10 + 9)
                    by (nonlinear_arith)
                    requires
                        val as int <= usize::MAX as int && dv as int <= 9,
                ;
            }
            let nv = val * 10 + dv;
            proof {
                assert(pattern@.subrange(s6 as int, d as int + 1).drop_last() =~= pattern@.subrange(
                    s6 as int,
                    d as int,
                ));
                assert(pattern@.subrange(s6 as int, d as int + 1).last() == pattern@[d as int]);
                assert(nv as int == digits_val(pattern@.subrange(s6 as int, d as int + 1)));
            }
            if nv > usize::MAX as u128 {
                proof {
                    if all_digit_chars(digits) {
                        lemma_digits_val_mono(digits, d as int + 1 - s6 as int);
                        assert(digits.subrange(0, d as int + 1 - s6 as int) =~= pattern@.subrange(
                            s6 as int,
                            d as int + 1,
                        ));
                    }
                }
                ok = false;
            } else {
                val = nv;
                d += 1;
            }
        } else {
            proof {
                assert(digits[d as int - s6 as int] == pattern@[d as int]);
                assert(!all_digit_chars(digits));
            }
            ok = false;
        }
    }
    if !ok || e == s6 {
        proof {
            if ok {
                assert(digits.len() == 0);
            }
            assert(expand_pattern(pattern@) =~~= Seq::empty());
            assert(hostnames.deep_view() =~~= expand_pattern(pattern@));
        }
        return hostnames;
    }
    proof {
        assert(pattern@.subrange(s6 as int, d as int) =~= digits);
    }

    let n = val as usize;
    let prefix = pattern.substring_char(0, start);
    let suffix = pattern.substring_char(e + 1, n_chars);
    let mut combos: Vec<String> = Vec::new();
    proof {
        reveal_strlit("");
        assert(""@.len() == 0);
    }
    generate_combinations("", n, &mut combos);
    let mut k: usize = 0;
    while k < combos.len()
        invariant
            combos.deep_view() == combo_block(""@, n as nat),
            combos@.len() == pow26(n as nat),
            ""@.len() == 0,
            prefix@ == pattern@.subrange(0, start as int),
            suffix@ == pattern@.subrange(e as int + 1, pattern@.len() as int),
            k <= combos@.len(),
            hostnames.deep_view() == Seq::new(
                k as nat,
                |j: int| prefix@ + kth_combo(j, n as nat) + suffix@,
            ),
        decreases combos@.len() - k,
    {
        let mut h = String::from_str(prefix);
        h.append(combos[k].as_str());
        h.append(suffix);
        proof {
            assert(combos.deep_view()[k as int] == ""@ + kth_combo(k as int, n as nat));
            assert(""@ + kth_combo(k as int, n as nat) =~= kth_combo(k as int, n as nat));
            assert(h@ =~= prefix@ + kth_combo(k as int, n as nat) + suffix@);
        }
        let ghost before = hostnames.deep_view();
        hostnames.push(h);
        proof {
            let dv = hostnames.deep_view();
            assert(before.len() == k);
            assert(hostnames@.len() == k + 1);
            assert(dv.len() == k + 1);
            assert forall|j: int| 0 <= j < k + 1 implies #[trigger] dv[j] == prefix@ + kth_combo(
                j,
                n as nat,
            ) + suffix@ by {
                if j < k {
                    assert(dv[j] == before[j]);
                } else {
                    assert(hostnames@[j] == h);
                }
            }
            assert(dv =~= Seq::new(
                (k + 1) as nat,
                |j: int| prefix@ + kth_combo(j, n as nat) + suffix@,
            ));
        }
        k += 1;
    }
    proof {
        assert(hostnames.deep_view() =~~= expand_pattern(pattern@));
    }
    hostnames
}

} // verus!
