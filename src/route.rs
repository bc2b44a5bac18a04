//! Which operation a request path asks for.
use crate::link::{parse_token, token_key, well_formed_token, Lookup};
use crate::bindings::blake3_digest;
use vstd::prelude::*;

verus! {

/// The segments collected so far and the one being read, after reading `p`.
pub open spec fn split_state(p: Seq<char>) -> (Seq<Seq<char>>, Seq<char>)
    decreases p.len(),
{
    if p.len() == 0 {
        (Seq::empty(), Seq::empty())
    } else {
        let (done, cur) = split_state(p.drop_last());
        if p.last() == '/' {
            if cur.len() == 0 {
                (done, cur)
            } else {
                (done.push(cur), Seq::empty())
            }
        } else {
            (done, cur.push(p.last()))
        }
    }
}

/// The non-empty `/`-separated segments of a path.
pub open spec fn segments(p: Seq<char>) -> Seq<Seq<char>> {
    let (done, cur) = split_state(p);
    if cur.len() == 0 {
        done
    } else {
        done.push(cur)
    }
}

/// Where a request goes.
pub enum Route {
    /// The empty path: the index page.
    Index,
    /// `/api/generate/<target>`, with the raw target segment.
    Generate(String),
    /// A single segment that is a well-formed token, with what to look up.
    Resolve(Lookup),
    /// Anything else: a static asset.
    Asset,
}

/// Splits a path into its non-empty `/`-separated segments.
pub fn path_segments(path: &str) -> (r: Vec<String>)
    ensures
        r.deep_view() == segments(path@),
{
    let n = path.unicode_len();
    let mut done: Vec<String> = Vec::new();
    let mut cur = String::new();
    let mut i: usize = 0;
    while i < n
        invariant
            n == path@.len(),
            i <= n,
            (done.deep_view(), cur@) == split_state(path@.subrange(0, i as int)),
        decreases n - i,
    {
        let ghost before = path@.subrange(0, i as int);
        let ghost after = path@.subrange(0, i + 1);
        assert(after.drop_last() =~= before);
        let c = path.get_char(i);
        if c == '/' {
            if cur.unicode_len() > 0 {
                let ghost d = done.deep_view();
                done.push(cur);
                assert(done.deep_view() =~= d.push(split_state(before).1));
                cur = String::new();
            }
        } else {
            cur.append(path.substring_char(i, i + 1));
        }
        i = i + 1;
    }
    assert(path@.subrange(0, n as int) =~= path@);
    if cur.unicode_len() > 0 {
        let ghost d = done.deep_view();
        done.push(cur);
        assert(done.deep_view() =~= d.push(split_state(path@).1));
    }
    done
}

/// Whether a segment spells `word`.
fn segment_is(segment: &String, word: &str) -> (r: bool)
    ensures
        r == (segment@ == word@),
{
    let w = String::from_str(word);
    *segment == w
}

/// Picks the operation for a request path: no segment is the index; `api`,
/// `generate` and one more segment is generate; one segment that is a
/// well-formed token is resolve; anything else is an asset.
pub fn route(path: &str) -> (r: Route)
    ensures
        ({
            let s = segments(path@);
            if s.len() == 0 {
                r is Index
            } else if s.len() == 3 && s[0] == seq!['a', 'p', 'i'] && s[1] == seq![
                'g',
                'e',
                'n',
                'e',
                'r',
                'a',
                't',
                'e',
            ] {
                r matches Route::Generate(t) && t@ == s[2]
            } else if s.len() == 1 && well_formed_token(s[0]) {
                r matches Route::Resolve(l) && l.key@ == token_key(s[0]) && l.key_hash@
                    == blake3_digest(l.key@)
            } else {
                r is Asset
            }
        }),
{
    let mut segs = path_segments(path);
    proof {
        reveal_strlit("api");
        reveal_strlit("generate");
    }
    assert("api"@ =~= seq!['a', 'p', 'i']);
    assert("generate"@ =~= seq!['g', 'e', 'n', 'e', 'r', 'a', 't', 'e']);
    if segs.len() == 0 {
        Route::Index
    } else if segs.len() == 3 && segment_is(&segs[0], "api") && segment_is(&segs[1], "generate") {
        let ghost s = segs.deep_view();
        let target = segs.pop().unwrap();
        assert(target@ == s[2]);
        Route::Generate(target)
    } else if segs.len() == 1 {
        match parse_token(segs[0].as_str()) {
            Ok(lookup) => Route::Resolve(lookup),
            Err(_) => Route::Asset,
        }
    } else {
        Route::Asset
    }
}

} // verus!
