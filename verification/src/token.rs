//! Control tokens: the opaque payload behind each digest control, carrying
//! the event's composite identity. A token is the event id's length in
//! decimal, a colon, then event id and calendar id run together — so it
//! decodes back to exactly one identity, and decoding accepts precisely
//! the strings some identity encodes to.

use vstd::prelude::*;
use vstd::string::StrSliceExecFns;
use vstd::string::StringExecFns;

use crate::event::EventKey;
use crate::text::{
    all_digits, dec_spec, digit_of, digit_val, digits_val, is_digit_char, lemma_dec_spec_digits,
    lemma_dec_val, lemma_dec_no_leading_zero, lemma_digits_val_bounds, lemma_digits_val_inverse,
    lemma_digits_val_prefix, push_u64,
};

verus! {

/// The token text for an event identity.
pub open spec fn token_spec(key: (Seq<char>, Seq<char>)) -> Seq<char> {
    dec_spec(key.0.len()) + seq![':'] + key.0 + key.1
}

/// The colon never appears in a decimal rendering.
proof fn lemma_colon_not_digit()
    ensures
        !is_digit_char(':'),
{
    if is_digit_char(':') {
        let d = choose|d: int| 0 <= d < 10 && ':' == crate::text::digit_char(d);
        assert(false);
    }
}

/// In a token, the digits end exactly at the colon: a digit scan that
/// stopped at `p` stopped at the length prefix's end.
proof fn lemma_scan_stops(t: Seq<char>, k: (Seq<char>, Seq<char>), p: int)
    requires
        t == token_spec(k),
        0 <= p <= t.len(),
        all_digits(t.take(p)),
        p == t.len() || !is_digit_char(t[p]),
    ensures
        p == dec_spec(k.0.len()).len(),
        t.take(p) == dec_spec(k.0.len()),
        t[p] == ':',
{
    let d = dec_spec(k.0.len());
    let l = d.len() as int;
    lemma_dec_spec_digits(k.0.len());
    lemma_colon_not_digit();
    assert(t.len() == l + 1 + k.0.len() + k.1.len());
    assert(t[l] == ':');
    assert(forall|i: int| 0 <= i < l ==> t[i] == d[i]);
    if p < l {
        assert(is_digit_char(t[p]));
        assert(false);
    }
    if p > l {
        assert(t.take(p)[l] == t[l]);
        assert(is_digit_char(t[l]));
        assert(false);
    }
    assert(t.take(p) =~= d);
}

/// Renders the control token for `key`.
pub fn encode_token(key: &EventKey) -> (r: String)
    ensures
        r@ == token_spec(key@),
{
    let mut s = String::new();
    let n = key.event_id.as_str().unicode_len();
    push_u64(&mut s, n as u64);
    proof {
        reveal_strlit(":");
    }
    assert(":"@ =~= seq![':']);
    s.append(":");
    s.append(key.event_id.as_str());
    s.append(key.calendar_id.as_str());
    proof {
        assert(s@ =~= token_spec(key@));
    }
    s
}

/// Resolves a control token back to the event identity it encodes.
/// Returns the identity exactly when the text is some identity's token;
/// any other text is rejected.
pub fn decode_token(token: &str) -> (r: Option<EventKey>)
    ensures
        r is Some ==> token@ == token_spec(r->0@),
        forall|k: (Seq<char>, Seq<char>)| token@ == token_spec(k) ==> r is Some && r->0@ == k,
{
    let n = token.unicode_len();
    let mut p: usize = 0;
    let mut val: u64 = 0;
    loop
        invariant
            n == token@.len(),
            p <= n,
            all_digits(token@.take(p as int)),
            val == digits_val(token@.take(p as int)),
        ensures
            p <= n,
            all_digits(token@.take(p as int)),
            val == digits_val(token@.take(p as int)),
            p == n || !is_digit_char(token@[p as int]),
        decreases n - p,
    {
        if p == n {
            break ;
        }
        let c = token.get_char(p);
        let d = match digit_of(c) {
            Some(d) => d,
            None => {
                break ;
            },
        };
        proof {
            assert(token@.take(p as int + 1).drop_last() =~= token@.take(p as int));
            assert(token@.take(p as int + 1).last() == token@[p as int]);
            assert(digits_val(token@.take(p as int + 1)) == val * 10 + d);
        }
        if val > (u64::MAX - (d as u64)) / 10 {
            proof {
                assert forall|k: (Seq<char>, Seq<char>)| token@ != token_spec(k) by {
                    if token@ == token_spec(k) {
                        let dd = dec_spec(k.0.len());
                        lemma_dec_spec_digits(k.0.len());
                        lemma_colon_not_digit();
                        assert(token@[dd.len() as int] == ':');
                        assert(forall|i: int| 0 <= i < dd.len() ==> token@[i] == dd[i]);
                        // The scan sits inside the digit prefix, so the
                        // partial value is bounded by the prefix's value.
                        assert(p < dd.len()) by {
                            if p >= dd.len() {
                                assert(is_digit_char(token@[p as int]));
                                if p > dd.len() {
                                    assert(token@.take(p as int)[dd.len() as int] == ':');
                                    assert(is_digit_char(':'));
                                }
                                assert(false);
                            }
                        }
                        assert(token@.take(dd.len() as int) =~= dd);
                        assert(all_digits(dd));
                        lemma_digits_val_prefix(dd, p as int + 1);
                        assert(dd.take(p as int + 1) =~= token@.take(p as int + 1));
                        lemma_dec_val(k.0.len());
                        assert(digits_val(token@.take(p as int + 1)) <= k.0.len());
                        assert(val * 10 + d > u64::MAX) by (nonlinear_arith)
                            requires
                                val > (u64::MAX - (d as u64)) / 10,
                                d < 10,
                        ;
                        assert(false);
                    }
                }
            }
            return None;
        }
        proof {
            assert(val * 10 + d <= u64::MAX) by (nonlinear_arith)
                requires
                    val <= (u64::MAX - (d as u64)) / 10,
                    d < 10,
            ;
        }
        val = val * 10 + (d as u64);
        p = p + 1;
    }
    if p == 0 {
        proof {
            assert forall|k: (Seq<char>, Seq<char>)| token@ != token_spec(k) by {
                if token@ == token_spec(k) {
                    lemma_dec_spec_digits(k.0.len());
                    assert(token@.len() > 0);
                    assert(token@[0] == dec_spec(k.0.len())[0]);
                    assert(is_digit_char(token@[0]));
                    assert(false);
                }
            }
        }
        return None;
    }
    if p > 1 && token.get_char(0) == '0' {
        proof {
            assert forall|k: (Seq<char>, Seq<char>)| token@ != token_spec(k) by {
                if token@ == token_spec(k) {
                    lemma_scan_stops(token@, k, p as int);
                    lemma_dec_no_leading_zero(k.0.len());
                    assert(token@[0] == dec_spec(k.0.len())[0]);
                    assert(false);
                }
            }
        }
        return None;
    }
    if p == n {
        proof {
            assert forall|k: (Seq<char>, Seq<char>)| token@ != token_spec(k) by {
                if token@ == token_spec(k) {
                    lemma_scan_stops(token@, k, p as int);
                    assert(token@.len() > p);
                    assert(false);
                }
            }
        }
        return None;
    }
    if token.get_char(p) != ':' {
        proof {
            assert forall|k: (Seq<char>, Seq<char>)| token@ != token_spec(k) by {
                if token@ == token_spec(k) {
                    lemma_scan_stops(token@, k, p as int);
                    assert(false);
                }
            }
        }
        return None;
    }
    let rest = n - p - 1;
    if val > rest as u64 {
        proof {
            assert forall|k: (Seq<char>, Seq<char>)| token@ != token_spec(k) by {
                if token@ == token_spec(k) {
                    lemma_scan_stops(token@, k, p as int);
                    lemma_dec_val(k.0.len());
                    assert(val == k.0.len());
                    assert(token@.len() == p + 1 + k.0.len() + k.1.len());
                    assert(false);
                }
            }
        }
        return None;
    }
    let elen = val as usize;
    let event_id = token.substring_char(p + 1, p + 1 + elen).to_owned();
    let calendar_id = token.substring_char(p + 1 + elen, n).to_owned();
    let r = EventKey { event_id, calendar_id };
    proof {
        // The scanned prefix renders `val`, so the whole reads back as the
        // token of the identity just cut out.
        lemma_digits_val_bounds(token@.take(p as int));
        lemma_digits_val_inverse(token@.take(p as int));
        assert(dec_spec(val as nat) == token@.take(p as int));
        assert(r@.0.len() == val);
        assert(token@ =~= token_spec(r@));
        assert forall|k: (Seq<char>, Seq<char>)| token@ == token_spec(k) implies r@ =~~= k by {
            lemma_scan_stops(token@, k, p as int);
            lemma_dec_val(k.0.len());
            assert(val == k.0.len());
            assert(token@.len() == p + 1 + k.0.len() + k.1.len());
            assert(r@.0 =~= k.0);
            assert(r@.1 =~= k.1);
        }
    }
    Some(r)
}

} // verus!
