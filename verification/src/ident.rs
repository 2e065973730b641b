//! Resolving the acting principal of a self-scoped operation from
//! request-scoped identity metadata: a header-like byte string that must
//! spell an account id in decimal. Mutating "self" operations trust this
//! side channel and never a payload-supplied id.

use vstd::prelude::*;

use crate::domain::ServiceError;

verus! {

/// A decimal digit byte.
pub open spec fn is_digit(b: u8) -> bool {
    48 <= b <= 57
}

/// Every byte is a decimal digit.
pub open spec fn all_digits(s: Seq<u8>) -> bool {
    forall|i: int| 0 <= i < s.len() ==> is_digit(#[trigger] s[i])
}

/// The number the bytes spell in decimal, most significant digit first.
pub open spec fn dec_value(s: Seq<u8>) -> int
    decreases s.len(),
{
    if s.len() == 0 {
        0
    } else {
        dec_value(s.drop_last()) * 10 + (s.last() - 48)
    }
}

/// The mathematical view of optional identity metadata bytes.
pub open spec fn id_view(m: Option<&[u8]>) -> Option<Seq<u8>> {
    match m {
        Some(b) => Some(b@),
        None => None,
    }
}

/// Identity metadata that resolves to a principal: present, non-empty, all
/// digits, and spelling a number an id can hold.
pub open spec fn valid_identity(m: Option<Seq<u8>>) -> bool {
    match m {
        Some(s) => s.len() > 0 && all_digits(s) && dec_value(s) <= u64::MAX,
        None => false,
    }
}

/// The principal valid identity metadata resolves to.
pub open spec fn principal_of(m: Option<Seq<u8>>) -> u64
    recommends
        valid_identity(m),
{
    dec_value(m->0) as u64
}

/// A digit string spells a non-negative number.
proof fn lemma_dec_value_nonneg(s: Seq<u8>)
    requires
        all_digits(s),
    ensures
        dec_value(s) >= 0,
    decreases s.len(),
{
    if s.len() > 0 {
        assert(all_digits(s.drop_last())) by {
            assert(forall|i: int|
                0 <= i < s.drop_last().len() ==> #[trigger] s.drop_last()[i] == s[i]);
        }
        lemma_dec_value_nonneg(s.drop_last());
        assert(is_digit(s.last()));
    }
}

/// A digit string spells at least what any of its prefixes spells.
proof fn lemma_dec_value_extend(s: Seq<u8>, j: int)
    requires
        all_digits(s),
        0 <= j <= s.len(),
    ensures
        dec_value(s.take(j)) <= dec_value(s),
    decreases s.len() - j,
{
    if j == s.len() {
        assert(s.take(j) =~= s);
    } else {
        let a = s.take(j);
        let b = s.take(j + 1);
        assert(b.drop_last() =~= a);
        assert(b.last() == s[j]);
        assert(all_digits(a)) by {
            assert(forall|i: int| 0 <= i < a.len() ==> #[trigger] a[i] == s[i]);
        }
        lemma_dec_value_nonneg(a);
        assert(is_digit(s[j]));
        assert(dec_value(b) == dec_value(a) * 10 + (s[j] - 48));
        assert(dec_value(a) * 10 >= dec_value(a));
        lemma_dec_value_extend(s, j + 1);
    }
}

/// Resolve the acting principal from identity metadata. Succeeds exactly on
/// valid metadata and reports missing or unparsable metadata as
/// `Unauthenticated` instead of failing the process.
pub fn resolve_principal(identity: Option<&[u8]>) -> (r: Result<u64, ServiceError>)
    ensures
        match r {
            Ok(uid) => valid_identity(id_view(identity)) && uid == principal_of(id_view(identity)),
            Err(e) => !valid_identity(id_view(identity)) && e is Unauthenticated,
        },
{
    match identity {
        None => Err(ServiceError::Unauthenticated),
        Some(bytes) => {
            let n = bytes.len();
            if n == 0 {
                return Err(ServiceError::Unauthenticated);
            }
            let mut acc: u64 = 0;
            let mut i: usize = 0;
            while i < n
                invariant
                    id_view(identity) == Some(bytes@),
                    i <= n,
                    n == bytes@.len(),
                    0 < n,
                    all_digits(bytes@.take(i as int)),
                    acc as int == dec_value(bytes@.take(i as int)),
                decreases n - i,
            {
                let b = bytes[i];
                if b < 48 || b > 57 {
                    proof {
                        assert(!all_digits(bytes@)) by {
                            if all_digits(bytes@) {
                                assert(is_digit(bytes@[i as int]));
                            }
                        }
                    }
                    return Err(ServiceError::Unauthenticated);
                }
                let d = (b - 48) as u64;
                let limit = (u64::MAX - d) / 10;
                proof {
                    vstd::arithmetic::div_mod::lemma_fundamental_div_mod(
                        (u64::MAX - d) as int,
                        10,
                    );
                    vstd::arithmetic::div_mod::lemma_mod_bound((u64::MAX - d) as int, 10);
                    assert(bytes@.take(i + 1 as int).drop_last() =~= bytes@.take(i as int));
                    assert(bytes@.take(i + 1 as int).last() == bytes@[i as int]);
                    assert(dec_value(bytes@.take(i + 1 as int)) == acc * 10 + d);
                }
                if acc > limit {
                    proof {
                        assert(acc * 10 + d > u64::MAX);
                        if all_digits(bytes@) {
                            lemma_dec_value_extend(bytes@, i + 1 as int);
                            assert(dec_value(bytes@) > u64::MAX);
                        }
                    }
                    return Err(ServiceError::Unauthenticated);
                }
                proof {
                    assert(acc * 10 + d <= u64::MAX);
                }
                acc = acc * 10 + d;
                proof {
                    assert(all_digits(bytes@.take(i + 1 as int))) by {
                        assert(forall|j: int|
                            0 <= j < i + 1 ==> #[trigger] bytes@.take(i + 1 as int)[j]
                                == bytes@.take(i as int).push(bytes@[i as int])[j]);
                        assert(bytes@.take(i + 1 as int) =~= bytes@.take(i as int).push(
                            bytes@[i as int],
                        ));
                    }
                }
                i = i + 1;
            }
            proof {
                assert(bytes@.take(n as int) =~= bytes@);
            }
            Ok(acc)
        },
    }
}

} // verus!
