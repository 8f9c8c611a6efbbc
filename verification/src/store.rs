//! The alias table: short six-character codes mapped to long URLs.

use vstd::prelude::*;
use vstd::hash_map::StringHashMap;
use rand::Rng;

verus! {

/// A code character is ASCII alphanumeric: `[A-Za-z0-9]`.
pub open spec fn is_code_char(c: char) -> bool {
    ('A' <= c && c <= 'Z') || ('a' <= c && c <= 'z') || ('0' <= c && c <= '9')
}

/// A valid short code is exactly six code characters.
pub open spec fn is_valid_code(s: Seq<char>) -> bool {
    &&& s.len() == 6
    &&& forall|i: int| 0 <= i < s.len() ==> is_code_char(#[trigger] s[i])
}

/// What a lookup of `code` in the table `m` yields.
pub open spec fn spec_resolve(m: Map<Seq<char>, Seq<char>>, code: Seq<char>) -> Option<
    Seq<char>,
> {
    if m.contains_key(code) {
        Some(m[code])
    } else {
        None
    }
}

/// The alias table: a mapping from short code to long URL.
pub struct UrlShortener {
    map: StringHashMap<String>,
}

impl View for UrlShortener {
    type V = Map<Seq<char>, Seq<char>>;

    closed spec fn view(&self) -> Self::V {
        self.map@.map_values(|v: String| v@)
    }
}

impl UrlShortener {
    /// Every key in the table is a valid short code.
    pub open spec fn wf(&self) -> bool {
        forall|k: Seq<char>| #[trigger] self@.contains_key(k) ==> is_valid_code(k)
    }

    /// Creates an empty table.
    pub fn new() -> (s: Self)
        ensures
            s@ == Map::<Seq<char>, Seq<char>>::empty(),
            s.wf(),
    {
        let s = UrlShortener { map: StringHashMap::new() };
        proof {
            assert(s@ =~= Map::<Seq<char>, Seq<char>>::empty());
        }
        s
    }

    /// Relies on rand's `Alphanumeric` distribution, drawn through
    /// `rand::thread_rng` and `Rng::sample_iter`: each sampled byte is one
    /// ASCII character from `[A-Za-z0-9]`, and six of them are taken.
    /// Which six characters come back depends on the thread's generator.
    #[verifier::external_body]
    fn generate_alias(&self) -> (code: String)
        ensures
            is_valid_code(code@),
    {
        rand::thread_rng()
            .sample_iter(&rand::distributions::Alphanumeric)
            .take(6)
            .map(char::from)
            .collect()
    }

    /// Inserts `long` under `code` only when the code is not already taken;
    /// returns whether the code was fresh. A taken code leaves the table
    /// unchanged, so no existing mapping is ever silently overwritten.
    pub fn insert_alias(&mut self, code: String, long: String) -> (fresh: bool)
        requires
            old(self).wf(),
            is_valid_code(code@),
        ensures
            final(self).wf(),
            fresh == !old(self)@.contains_key(code@),
            fresh ==> final(self)@ == old(self)@.insert(code@, long@),
            !fresh ==> final(self)@ == old(self)@,
    {
        proof {
            assert(self@.dom() =~= self.map@.dom());
        }
        if self.map.contains_key(code.as_str()) {
            false
        } else {
            let ghost key = code@;
            let ghost url = long@;
            self.map.insert(code, long);
            proof {
                assert(self@ =~= old(self)@.insert(key, url));
            }
            true
        }
    }

    /// Generates a fresh random code, inserts the pair, and returns the code.
    /// On a collision the draw is retried a fixed number of times; only after
    /// that many consecutive collisions does the last candidate overwrite the
    /// entry it collides with.
    pub fn shorten(&mut self, long: String) -> (short: String)
        requires
            old(self).wf(),
        ensures
            final(self).wf(),
            is_valid_code(short@),
            final(self)@ == old(self)@.insert(short@, long@),
    {
        let mut code = self.generate_alias();
        let mut tries: usize = 0;
        loop
            invariant
                self.wf(),
                self@ == old(self)@,
                is_valid_code(code@),
                tries <= 63,
            ensures
                self@ == old(self)@,
                is_valid_code(code@),
            decreases 64 - tries,
        {
            if tries >= 63 {
                break;
            }
            if !self.map.contains_key(code.as_str()) {
                break;
            }
            code = self.generate_alias();
            tries = tries + 1;
        }
        let ghost key = code@;
        let ghost url = long@;
        self.map.insert(code.clone(), long);
        proof {
            assert(self@ =~= old(self)@.insert(key, url));
        }
        code
    }

    /// Looks the code up; returns nothing when it is absent.
    pub fn resolve<'a>(&'a self, short: &str) -> (r: Option<&'a String>)
        ensures
            match r {
                Some(url) => spec_resolve(self@, short@) == Some(url@),
                None => spec_resolve(self@, short@) is None,
            },
    {
        proof {
            assert(self@.dom() =~= self.map@.dom());
        }
        self.map.get(short)
    }
}

/// Law: a URL registered under a code resolves to exactly that URL, and
/// registering a code leaves every other code's resolution unchanged.
pub proof fn lemma_resolve_after_insert(
    m: Map<Seq<char>, Seq<char>>,
    code: Seq<char>,
    url: Seq<char>,
    other: Seq<char>,
)
    ensures
        spec_resolve(m.insert(code, url), code) == Some(url),
        other != code ==> spec_resolve(m.insert(code, url), other) == spec_resolve(m, other),
{
}

/// Law: resolving a code that was never registered yields no URL.
pub proof fn lemma_resolve_absent(m: Map<Seq<char>, Seq<char>>, code: Seq<char>)
    requires
        !m.contains_key(code),
    ensures
        spec_resolve(m, code) is None,
{
}

/// Law: a registration whose code is fresh for a table that already holds an
/// earlier registration cannot reuse the earlier code; in particular two
/// consecutive registrations that both found fresh codes are distinct.
pub proof fn lemma_fresh_codes_distinct(
    m: Map<Seq<char>, Seq<char>>,
    c1: Seq<char>,
    u1: Seq<char>,
    c2: Seq<char>,
)
    requires
        !m.insert(c1, u1).contains_key(c2),
    ensures
        c2 != c1,
{
}

} // verus!
