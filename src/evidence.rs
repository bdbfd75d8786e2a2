use vstd::prelude::*;
use vstd::utf8::encode_utf8;

verus! {

/// `needle` occurs in `hay` starting at position `i`.
pub open spec fn occurs_at(hay: Seq<u8>, needle: Seq<u8>, i: int) -> bool {
    &&& 0 <= i
    &&& i + needle.len() <= hay.len()
    &&& hay.subrange(i, i + needle.len()) == needle
}

pub open spec fn bytes_contain(hay: Seq<u8>, needle: Seq<u8>) -> bool {
    exists|i: int| occurs_at(hay, needle, i)
}

/// `needle` is a substring of `hay`, compared on their UTF-8 bytes as `str::contains`
/// compares them.
pub open spec fn text_contains(hay: Seq<char>, needle: Seq<char>) -> bool {
    bytes_contain(encode_utf8(hay), encode_utf8(needle))
}

/// Some post holds the token.
pub open spec fn evidence_found(posts: Seq<Seq<char>>, code: Seq<char>) -> bool {
    exists|k: int| 0 <= k < posts.len() && text_contains(#[trigger] posts[k], code)
}

pub open spec fn texts(posts: Seq<String>) -> Seq<Seq<char>> {
    posts.map_values(|p: String| p@)
}

fn matches_at(hay: &[u8], needle: &[u8], i: usize) -> (r: bool)
    requires
        i + needle@.len() <= hay@.len(),
    ensures
        r == occurs_at(hay@, needle@, i as int),
{
    let hay_len = hay.len();
    let mut j: usize = 0;
    while j < needle.len()
        invariant
            i + needle@.len() <= hay@.len(),
            hay_len == hay@.len(),
            j <= needle@.len(),
            forall|k: int| 0 <= k < j ==> hay@[i + k] == needle@[k],
        decreases needle@.len() - j,
    {
        if hay[i + j] != needle[j] {
            proof {
                assert(hay@.subrange(i as int, i + needle@.len())[j as int] != needle@[j as int]);
            }
            return false;
        }
        j = j + 1;
    }
    proof {
        assert(hay@.subrange(i as int, i + needle@.len()) =~= needle@);
    }
    true
}

/// Whether `needle` occurs in `hay`.
pub fn contains_text(hay: &str, needle: &str) -> (r: bool)
    ensures
        r == text_contains(hay@, needle@),
{
    let h = hay.as_bytes();
    let n = needle.as_bytes();
    if n.len() > h.len() {
        proof {
            assert forall|i: int| !occurs_at(h@, n@, i) by {}
        }
        return false;
    }
    let last = h.len() - n.len();
    let mut i: usize = 0;
    loop
        invariant
            h@ == encode_utf8(hay@),
            n@ == encode_utf8(needle@),
            last == h@.len() - n@.len(),
            i <= last,
            forall|k: int| 0 <= k < i ==> !occurs_at(h@, n@, k),
        decreases last - i,
    {
        if matches_at(h, n, i) {
            return true;
        }
        if i == last {
            proof {
                assert forall|k: int| !occurs_at(h@, n@, k) by {
                    if 0 <= k && k < i {
                    }
                }
            }
            return false;
        }
        i = i + 1;
    }
}

/// Whether any of `posts` holds `code`.
pub fn posts_contain(posts: &Vec<String>, code: &str) -> (r: bool)
    ensures
        r == evidence_found(texts(posts@), code@),
{
    let mut k: usize = 0;
    while k < posts.len()
        invariant
            k <= posts@.len(),
            forall|m: int| 0 <= m < k ==> !text_contains(#[trigger] posts@[m]@, code@),
        decreases posts@.len() - k,
    {
        if contains_text(posts[k].as_str(), code) {
            proof {
                assert(texts(posts@)[k as int] == posts@[k as int]@);
            }
            return true;
        }
        k = k + 1;
    }
    proof {
        assert forall|m: int| 0 <= m < texts(posts@).len() implies !text_contains(
            #[trigger] texts(posts@)[m],
            code@,
        ) by {
            assert(texts(posts@)[m] == posts@[m]@);
        }
    }
    false
}

} // verus!
