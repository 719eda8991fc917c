//! The byte layer of the clipboard encoding: a stream of numbers written
//! as ASCII decimal tokens, with a proved render/tokenize round trip.

use vstd::prelude::*;

verus! {

// ---------------------------------------------------------------------------
// Byte layer: a token stream rendered as ASCII decimal numbers, each number
// followed by a single space.
// ---------------------------------------------------------------------------

pub open spec fn is_digit(b: u8) -> bool {
    48 <= b <= 57
}

/// The decimal digits of a number, most significant first.
pub open spec fn dec_digits(n: nat) -> Seq<u8>
    decreases n,
{
    if n < 10 {
        seq![(48 + n) as u8]
    } else {
        dec_digits(n / 10).push((48 + n % 10) as u8)
    }
}

pub open spec fn abs_val(v: i128) -> nat {
    if v >= 0 {
        v as nat
    } else {
        (-(v as int)) as nat
    }
}

/// One rendered token: an optional minus sign and the magnitude's digits.
pub open spec fn enc_num(v: i128) -> Seq<u8> {
    if v < 0 {
        seq![45u8] + dec_digits(abs_val(v))
    } else {
        dec_digits(abs_val(v))
    }
}

/// The whole rendered token stream.
pub open spec fn spec_render(ts: Seq<i128>) -> Seq<u8>
    decreases ts.len(),
{
    if ts.len() == 0 {
        Seq::empty()
    } else {
        enc_num(ts[0]) + seq![32u8] + spec_render(ts.skip(1))
    }
}

/// The length of the leading run of decimal digits.
pub open spec fn digit_run(s: Seq<u8>) -> nat
    decreases s.len(),
{
    if s.len() == 0 || !is_digit(s[0]) {
        0
    } else {
        1 + digit_run(s.skip(1))
    }
}

/// The value of a string of digits.
pub open spec fn digits_val(s: Seq<u8>) -> int
    decreases s.len(),
{
    if s.len() == 0 {
        0
    } else {
        digits_val(s.take(s.len() - 1)) * 10 + (s.last() - 48)
    }
}

/// The total parse of a rendered byte sequence back into tokens: each token
/// is an optional minus sign, a nonempty digit run whose value fits the
/// token range, and exactly one trailing space.
pub open spec fn spec_tokenize(s: Seq<u8>) -> Option<Seq<i128>>
    decreases s.len(),
{
    if s.len() == 0 {
        Some(Seq::empty())
    } else {
        let neg = s[0] == 45;
        let body = if neg {
            s.skip(1)
        } else {
            s
        };
        let dl = digit_run(body);
        if dl == 0 || dl >= body.len() || body[dl as int] != 32 {
            None
        } else {
            let mag = digits_val(body.take(dl as int));
            let v = if neg {
                -(mag as int)
            } else {
                mag as int
            };
            if v < i128::MIN || v > i128::MAX {
                None
            } else {
                match spec_tokenize(body.skip(dl as int + 1)) {
                    Option::None => Option::<Seq<i128>>::None,
                    Option::Some(rest) => Some(seq![v as i128] + rest),
                }
            }
        }
    }
}

// ---------------------------------------------------------------------------
// Executable rendering
// ---------------------------------------------------------------------------

fn push_digits(out: &mut Vec<u8>, n: u128)
    ensures
        final(out)@ == old(out)@ + dec_digits(n as nat),
    decreases n,
{
    if n < 10 {
        out.push(48 + n as u8);
        proof {
            assert(out@ =~= old(out)@ + dec_digits(n as nat));
        }
    } else {
        push_digits(out, n / 10);
        out.push(48 + (n % 10) as u8);
        proof {
            assert(out@ =~= old(out)@ + dec_digits(n as nat));
        }
    }
}

fn num_magnitude(v: i128) -> (r: u128)
    ensures
        r as nat == abs_val(v),
{
    if v >= 0 {
        v as u128
    } else if v == i128::MIN {
        170141183460469231731687303715884105728u128
    } else {
        (-v) as u128
    }
}

pub fn render_tokens(ts: &Vec<i128>) -> (out: Vec<u8>)
    ensures
        out@ == spec_render(ts@),
{
    let mut out: Vec<u8> = Vec::new();
    let mut i: usize = 0;
    proof {
        assert(ts@.skip(0) =~= ts@);
        assert(Seq::<u8>::empty() + spec_render(ts@) =~= spec_render(ts@));
    }
    while i < ts.len()
        invariant
            i <= ts@.len(),
            spec_render(ts@) == out@ + spec_render(ts@.skip(i as int)),
        decreases ts@.len() - i,
    {
        let ghost pre = out@;
        let v = ts[i];
        proof {
            assert(ts@.skip(i as int)[0] == ts@[i as int]);
            assert(ts@.skip(i as int).skip(1) =~= ts@.skip(i as int + 1));
        }
        if v < 0 {
            out.push(45);
        }
        push_digits(&mut out, num_magnitude(v));
        out.push(32);
        proof {
            assert(out@ =~= pre + enc_num(v) + seq![32u8]);
            assert(pre + enc_num(v) + seq![32u8] + spec_render(ts@.skip(i as int + 1)) =~= pre
                + spec_render(ts@.skip(i as int)));
        }
        i += 1;
    }
    proof {
        assert(ts@.skip(ts@.len() as int) =~= Seq::<i128>::empty());
        assert(out@ + Seq::<u8>::empty() =~= out@);
    }
    out
}

// ---------------------------------------------------------------------------
// Executable tokenizing
// ---------------------------------------------------------------------------

proof fn lemma_digits_val_step(s: Seq<u8>, k: int)
    requires
        0 <= k < s.len(),
    ensures
        digits_val(s.take(k + 1)) == digits_val(s.take(k)) * 10 + (s[k] - 48),
{
    assert(s.take(k + 1).take(k) =~= s.take(k));
    assert(s.take(k + 1).last() == s[k]);
}

proof fn lemma_digits_val_nonneg(s: Seq<u8>)
    requires
        forall|t: int| 0 <= t < s.len() ==> is_digit(#[trigger] s[t]),
    ensures
        digits_val(s) >= 0,
    decreases s.len(),
{
    if s.len() == 0 {
    } else {
        assert(forall|t: int|
            0 <= t < s.take(s.len() - 1).len() ==> is_digit(#[trigger] s.take(s.len() - 1)[t]));
        lemma_digits_val_nonneg(s.take(s.len() - 1));
    }
}

proof fn lemma_digits_val_grows(s: Seq<u8>, k: int)
    requires
        0 <= k <= s.len(),
        forall|t: int| 0 <= t < s.len() ==> is_digit(#[trigger] s[t]),
    ensures
        digits_val(s.take(k)) <= digits_val(s),
    decreases s.len() - k,
{
    if k == s.len() {
        assert(s.take(k) =~= s);
    } else {
        lemma_digits_val_step(s, k);
        assert(forall|t: int| 0 <= t < s.take(k).len() ==> is_digit(#[trigger] s.take(k)[t]));
        lemma_digits_val_nonneg(s.take(k));
        lemma_digits_val_grows(s, k + 1);
    }
}

pub fn tokenize(b: &Vec<u8>) -> (r: Option<Vec<i128>>)
    ensures
        match r {
            Option::Some(ts) => spec_tokenize(b@) == Some(ts@),
            Option::None => spec_tokenize(b@).is_none(),
        },
{
    let n = b.len();
    let mut acc: Vec<i128> = Vec::new();
    let mut pos: usize = 0;
    proof {
        assert(b@.skip(0) =~= b@);
        assert forall|rest: Seq<i128>| #[trigger] (Seq::<i128>::empty() + rest) =~= rest by {}
    }
    while pos < n
        invariant
            pos <= n,
            n == b@.len(),
            spec_tokenize(b@) == match spec_tokenize(b@.skip(pos as int)) {
                Option::None => Option::<Seq<i128>>::None,
                Option::Some(rest) => Some(acc@ + rest),
            },
        decreases n - pos,
    {
        let ghost s = b@.skip(pos as int);
        let neg = b[pos] == 45;
        let body_pos: usize = if neg {
            pos + 1
        } else {
            pos
        };
        let ghost body = b@.skip(body_pos as int);
        proof {
            if neg {
                assert(s.skip(1) =~= body);
            }
        }
        // measure the digit run
        let mut k: usize = body_pos;
        while k < n && 48 <= b[k] && b[k] <= 57
            invariant
                body_pos <= k <= n,
                n == b@.len(),
                body == b@.skip(body_pos as int),
                digit_run(body) == (k - body_pos) + digit_run(b@.skip(k as int)),
                forall|m: int|
                    body_pos <= m < k ==> is_digit(#[trigger] b@[m]),
            decreases n - k,
        {
            proof {
                assert(b@.skip(k as int)[0] == b@[k as int]);
                assert(b@.skip(k as int).skip(1) =~= b@.skip(k as int + 1));
            }
            k += 1;
        }
        proof {
            if k < n {
                assert(b@.skip(k as int)[0] == b@[k as int]);
            }
            assert(digit_run(b@.skip(k as int)) == 0);
            assert(digit_run(body) == k - body_pos);
        }
        let ghost dl = digit_run(body);
        if k == body_pos || k >= n || b[k] != 32 {
            proof {
                if k == body_pos {
                    assert(dl == 0);
                } else if k >= n {
                    assert(dl >= body.len());
                } else {
                    assert(body[dl as int] == b@[k as int]);
                }
                assert(spec_tokenize(s).is_none());
            }
            return None;
        }
        // accumulate the magnitude, aborting once it can no longer fit
        let ghost digits = body.take(dl as int);
        let mut mag: u128 = 0;
        let mut j: usize = body_pos;
        while j < k
            invariant
                body_pos <= j <= k,
                k < n,
                pos <= body_pos,
                pos < n,
                n == b@.len(),
                s == b@.skip(pos as int),
                neg == (s[0] == 45),
                body_pos == if neg {
                    pos + 1
                } else {
                    pos as int
                },
                body == b@.skip(body_pos as int),
                body == if neg {
                    s.skip(1)
                } else {
                    s
                },
                dl == digit_run(body),
                dl == k - body_pos,
                0 < dl < body.len(),
                body[dl as int] == 32,
                digits == body.take((k - body_pos) as int),
                forall|m: int|
                    body_pos <= m < k ==> is_digit(#[trigger] b@[m]),
                mag <= 170141183460469231731687303715884105728u128,
                mag as int == digits_val(digits.take((j - body_pos) as int)),
                spec_tokenize(b@) == match spec_tokenize(b@.skip(pos as int)) {
                    Option::None => Option::<Seq<i128>>::None,
                    Option::Some(rest) => Some(acc@ + rest),
                },
            decreases k - j,
        {
            proof {
                lemma_digits_val_step(digits, j - body_pos);
                assert(digits[(j - body_pos) as int] == b@[j as int]);
                assert forall|t: int| 0 <= t < digits.len() implies is_digit(
                    #[trigger] digits[t],
                ) by {
                    assert(digits[t] == b@[body_pos + t]);
                }
            }
            let d = b[j] - 48;
            if mag > 17014118346046923173168730371588410572u128 {
                // another digit would exceed the token range
                proof {
                    assert(digits_val(digits.take((j - body_pos) as int + 1))
                        > 170141183460469231731687303715884105728);
                    lemma_digits_val_grows(digits, j - body_pos + 1);
                    assert(digits_val(digits) > 170141183460469231731687303715884105728);
                    assert(spec_tokenize(s).is_none());
                }
                return None;
            }
            mag = mag * 10 + (d as u128);
            if mag > 170141183460469231731687303715884105728u128 {
                proof {
                    assert(mag as int == digits_val(digits.take((j - body_pos) as int + 1)));
                    lemma_digits_val_grows(digits, j - body_pos + 1);
                    assert(digits_val(digits) >= mag as int);
                    assert(spec_tokenize(s).is_none());
                }
                return None;
            }
            j += 1;
        }
        proof {
            assert(digits.take((k - body_pos) as int) =~= digits);
            assert(mag as int == digits_val(digits));
        }
        let v: i128 = if neg {
            if mag > 170141183460469231731687303715884105728u128 {
                proof {
                    assert(spec_tokenize(s).is_none());
                }
                return None;
            }
            if mag == 170141183460469231731687303715884105728u128 {
                i128::MIN
            } else {
                -(mag as i128)
            }
        } else {
            if mag > 170141183460469231731687303715884105727u128 {
                proof {
                    assert(spec_tokenize(s).is_none());
                }
                return None;
            }
            mag as i128
        };
        let ghost pre_acc = acc@;
        acc.push(v);
        pos = k + 1;
        proof {
            assert(body.skip(dl as int + 1) =~= b@.skip(pos as int));
            let rest_opt = spec_tokenize(b@.skip(pos as int));
            match rest_opt {
                Option::None => {
                    assert(spec_tokenize(s).is_none());
                },
                Option::Some(rest) => {
                    assert(spec_tokenize(s) == Some(seq![v] + rest));
                    assert(pre_acc + (seq![v] + rest) =~= acc@ + rest);
                },
            }
        }
    }
    proof {
        assert(b@.skip(n as int) =~= Seq::<u8>::empty());
        assert(acc@ + Seq::<i128>::empty() =~= acc@);
    }
    Some(acc)
}

/// Rendering then tokenizing gives back the token stream unchanged.
pub proof fn lemma_tokenize_render(ts: Seq<i128>)
    ensures
        spec_tokenize(spec_render(ts)) == Some(ts),
    decreases ts.len(),
{
    if ts.len() == 0 {
    } else {
        let v = ts[0];
        let s = spec_render(ts);
        let tail = seq![32u8] + spec_render(ts.skip(1));
        lemma_digit_facts(abs_val(v));
        lemma_digit_run_prefix(dec_digits(abs_val(v)), tail);
        lemma_tokenize_render(ts.skip(1));
        let neg = v < 0;
        if neg {
            assert(s =~= seq![45u8] + (dec_digits(abs_val(v)) + tail));
            assert(s[0] == 45);
            assert(s.skip(1) =~= dec_digits(abs_val(v)) + tail);
        } else {
            assert(s =~= dec_digits(abs_val(v)) + tail);
            assert(s[0] == dec_digits(abs_val(v))[0]);
            assert(is_digit(s[0]));
            assert(s[0] != 45);
        }
        let body = if neg {
            s.skip(1)
        } else {
            s
        };
        assert(body =~= dec_digits(abs_val(v)) + tail);
        let dn = dec_digits(abs_val(v)).len();
        assert(digit_run(body) == dn);
        assert(body[dn as int] == 32);
        assert(dn < body.len());
        assert(body.take(dn as int) =~= dec_digits(abs_val(v)));
        lemma_digits_val_of_digits(abs_val(v));
        assert(digits_val(body.take(dn as int)) == abs_val(v));
        assert(body.skip(dn as int + 1) =~= spec_render(ts.skip(1)));
        assert(seq![v] + ts.skip(1) =~= ts);
    }
}

/// Every byte of a digit string is a digit, there is at least one, and the
/// first digit of a nonzero number is never the sign byte.
proof fn lemma_digit_facts(n: nat)
    ensures
        dec_digits(n).len() >= 1,
        forall|k: int| 0 <= k < dec_digits(n).len() ==> is_digit(#[trigger] dec_digits(n)[k]),
    decreases n,
{
    if n < 10 {
    } else {
        lemma_digit_facts(n / 10);
        assert forall|k: int| 0 <= k < dec_digits(n).len() implies is_digit(
            #[trigger] dec_digits(n)[k],
        ) by {
            if k < dec_digits(n / 10).len() {
                assert(dec_digits(n)[k] == dec_digits(n / 10)[k]);
            }
        }
    }
}

/// The digit run of digits followed by a non-digit covers exactly the digits.
proof fn lemma_digit_run_prefix(d: Seq<u8>, t: Seq<u8>)
    requires
        forall|k: int| 0 <= k < d.len() ==> is_digit(#[trigger] d[k]),
        t.len() > 0,
        !is_digit(t[0]),
    ensures
        digit_run(d + t) == d.len(),
    decreases d.len(),
{
    if d.len() == 0 {
        assert(d + t =~= t);
    } else {
        assert((d + t)[0] == d[0]);
        assert((d + t).skip(1) =~= d.skip(1) + t);
        lemma_digit_run_prefix(d.skip(1), t);
    }
}

/// Parsing the digits of `n` gives back `n`.
proof fn lemma_digits_val_of_digits(n: nat)
    ensures
        digits_val(dec_digits(n)) == n,
    decreases n,
{
    if n < 10 {
        assert(dec_digits(n).take(0) =~= Seq::<u8>::empty());
        assert(digits_val(Seq::<u8>::empty()) == 0);
        assert(dec_digits(n).last() == (48 + n) as u8);
    } else {
        lemma_digits_val_of_digits(n / 10);
        let d = dec_digits(n);
        assert(d.take(d.len() - 1) =~= dec_digits(n / 10));
        assert(d.last() == (48 + n % 10) as u8);
    }
}

} // verus!
