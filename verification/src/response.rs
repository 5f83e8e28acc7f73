//! Reading the lifecycle provider's and the controller's HTTP answers:
//! which statuses and bodies count as success, and when a reporting agent
//! must register again.

use vstd::prelude::*;

verus! {

/// `needle` occurs in `hay` starting at position `i`.
pub open spec fn match_at(hay: Seq<char>, needle: Seq<char>, i: int) -> bool {
    0 <= i && i + needle.len() <= hay.len() && hay.subrange(i, i + needle.len()) == needle
}

/// `needle` occurs somewhere in `hay`.
pub open spec fn contains_str(hay: Seq<char>, needle: Seq<char>) -> bool {
    exists|i: int| match_at(hay, needle, i)
}

/// Substring search over the characters of two strings.
pub fn str_contains(hay: &str, needle: &str) -> (r: bool)
    ensures
        r == contains_str(hay@, needle@),
{
    let hay_len = hay.unicode_len();
    let needle_len = needle.unicode_len();
    if needle_len > hay_len {
        proof {
            assert forall|i: int| !match_at(hay@, needle@, i) by {}
        }
        return false;
    }
    if needle_len == 0 {
        proof {
            assert(hay@.subrange(0, 0) =~= needle@);
            assert(match_at(hay@, needle@, 0));
        }
        return true;
    }
    let mut i: usize = 0;
    while i <= hay_len - needle_len
        invariant
            1 <= needle_len <= hay_len,
            hay_len == hay@.len(),
            needle_len == needle@.len(),
            i <= hay_len - needle_len + 1,
            forall|k: int| 0 <= k < i ==> !match_at(hay@, needle@, k),
        decreases hay_len - i,
    {
        let mut j: usize = 0;
        let mut hit = true;
        while j < needle_len
            invariant
                needle_len <= hay_len,
                hay_len == hay@.len(),
                needle_len == needle@.len(),
                i + needle_len <= hay_len,
                j <= needle_len,
                hit ==> forall|k: int| 0 <= k < j ==> hay@[i + k] == needle@[k],
                !hit ==> !match_at(hay@, needle@, i as int),
            decreases needle_len - j,
        {
            if hay.get_char(i + j) != needle.get_char(j) {
                proof {
                    if match_at(hay@, needle@, i as int) {
                        let sub = hay@.subrange(i as int, i + needle@.len());
                        assert(sub[j as int] == needle@[j as int]);
                    }
                }
                hit = false;
                j = needle_len;
            } else {
                j += 1;
            }
        }
        if hit {
            proof {
                assert(hay@.subrange(i as int, i + needle@.len()) =~= needle@);
                assert(match_at(hay@, needle@, i as int));
            }
            return true;
        }
        i += 1;
    }
    proof {
        assert forall|k: int| !match_at(hay@, needle@, k) by {
            if 0 <= k <= hay@.len() - needle@.len() {
                assert(!match_at(hay@, needle@, k));
            }
        }
    }
    false
}

/// How a lifecycle call's outcome reads: a 200 is success, a 400 is a plain
/// failure, and any other status is still a success when the body says the
/// machine already is in a state the transition cannot leave — an idempotent
/// no-op, not an error.
pub open spec fn spec_lifecycle_call_succeeded(status: u16, body: Seq<char>) -> bool {
    if status == 200 {
        true
    } else if status == 400 {
        false
    } else {
        contains_str(body, "current state invalid"@)
    }
}

/// Whether a lifecycle provider's answer counts as success for the scan:
/// on success the machine's record may flip; on failure it stays and the
/// next cycle retries.
pub fn lifecycle_call_succeeded(status: u16, body: &str) -> (r: bool)
    ensures
        r == spec_lifecycle_call_succeeded(status, body@),
{
    if status == 200 {
        true
    } else if status == 400 {
        false
    } else {
        str_contains(body, "current state invalid")
    }
}

/// Whether a heartbeat answer tells the reporting agent it is unknown to the
/// controller: a 400 whose body carries the not-registered message. The
/// agent must then register again before reporting on.
pub fn should_reregister(status: u16, body: &str) -> (r: bool)
    ensures
        r == (status == 400 && contains_str(body@, "machine not registered"@)),
{
    status == 400 && str_contains(body, "machine not registered")
}

} // verus!
