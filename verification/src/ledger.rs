//! The deduplication ledger.
//!
//! A [`PersistentSet`] records which references have already reached a
//! terminal outcome (one set for `downloaded`, one for `invalid`).  In
//! memory it is a duplicate-free list of references viewed as a set of
//! character sequences.  Durability uses newline-terminated lines, one
//! encoded reference per line: [`PersistentSet::to_lines`] proves that the
//! text it emits parses back to exactly the entries written, so a fresh
//! process that loads the flushed text sees the same ledger.

use vstd::prelude::*;
use vstd::string::StrSliceExecFns;
use vstd::string::StringExecFns;
use vstd::utf8::{decode_utf8, valid_utf8};

use crate::store::{
    b64url_char, b64url_decode, b64url_decode_of, b64url_encode, bytes_to_string,
    spec_name_to_url,
};
use crate::text::{find_char, first_index_of, is_first_of, lemma_first_index_of};

verus! {

/// The references a list of urls stands for, as a set of views.
pub open spec fn views_set(urls: Seq<String>) -> Set<Seq<char>>
    decreases urls.len(),
{
    if urls.len() == 0 {
        Set::empty()
    } else {
        views_set(urls.drop_first()).insert(urls[0]@)
    }
}

pub proof fn lemma_views_set_contains(urls: Seq<String>, x: Seq<char>)
    ensures
        views_set(urls).contains(x) <==> exists|j: int| 0 <= j < urls.len() && urls[j]@ == x,
    decreases urls.len(),
{
    if urls.len() > 0 {
        lemma_views_set_contains(urls.drop_first(), x);
        if views_set(urls).contains(x) {
            if urls[0]@ == x {
                assert(0 <= 0 < urls.len() && urls[0]@ == x);
            } else {
                let j = choose|j: int|
                    0 <= j < urls.drop_first().len() && urls.drop_first()[j]@ == x;
                assert(urls[j + 1]@ == x);
            }
        }
        if exists|j: int| 0 <= j < urls.len() && urls[j]@ == x {
            let j = choose|j: int| 0 <= j < urls.len() && urls[j]@ == x;
            if j > 0 {
                assert(urls.drop_first()[j - 1]@ == x);
            }
        }
    }
}

/// What one flushed line decodes to, if it decodes at all.
pub open spec fn spec_decode_entry(seg: Seq<char>) -> Option<Seq<char>> {
    match b64url_decode_of(seg) {
        Some(bytes) => if valid_utf8(bytes) {
            Some(decode_utf8(bytes))
        } else {
            None
        },
        None => None,
    }
}

/// The set of references a flushed text parses back to: one entry per
/// newline-terminated line whose content decodes; anything after the last
/// newline is ignored.
pub open spec fn spec_parse_lines(t: Seq<char>) -> Set<Seq<char>>
    decreases t.len(),
{
    match first_index_of(t, seq!['\n']) {
        Some(i) => if 0 <= i < t.len() {
            let rest = spec_parse_lines(t.skip(i + 1));
            match spec_decode_entry(t.subrange(0, i)) {
                Some(u) => rest.insert(u),
                None => rest,
            }
        } else {
            Set::empty()
        },
        None => Set::empty(),
    }
}

/// Splitting off one newline-terminated segment from the front of a text.
proof fn lemma_parse_line_prefix(seg: Seq<char>, x: Seq<char>)
    requires
        forall|j: int| 0 <= j < seg.len() ==> #[trigger] seg[j] != '\n',
    ensures
        spec_parse_lines(seg + seq!['\n'] + x) == (match spec_decode_entry(seg) {
            Some(u) => spec_parse_lines(x).insert(u),
            None => spec_parse_lines(x),
        }),
{
    let t = seg + seq!['\n'] + x;
    assert(seq!['\n'][0] == '\n');
    assert(t[seg.len() as int] == '\n');
    assert(forall|j: int| 0 <= j < seg.len() ==> #[trigger] t[j] == seg[j]);
    assert(is_first_of(t, seq!['\n'], seg.len() as int));
    lemma_first_index_of(t, seq!['\n'], seg.len() as int);
    assert(t.subrange(0, seg.len() as int) =~= seg);
    assert(t.skip(seg.len() as int + 1) =~= x);
}

/// A durable set of references, keyed by the reference text itself.
pub struct PersistentSet {
    name: String,
    urls: Vec<String>,
}

impl View for PersistentSet {
    type V = Set<Seq<char>>;

    closed spec fn view(&self) -> Set<Seq<char>> {
        views_set(self.urls@)
    }
}

impl PersistentSet {
    /// Which ledger this is, e.g. `downloaded` or `invalid`.
    pub closed spec fn spec_name(&self) -> Seq<char> {
        self.name@
    }

    /// Which ledger this is, e.g. `downloaded` or `invalid`.
    pub fn name(&self) -> (r: &String)
        ensures
            r@ == self.spec_name(),
    {
        &self.name
    }

    /// A fresh, empty ledger.
    pub fn new(name: String) -> (r: PersistentSet)
        ensures
            r@ == Set::<Seq<char>>::empty(),
            r.spec_name() == name@,
    {
        PersistentSet { name, urls: Vec::new() }
    }

    /// Is `url` recorded?
    pub fn contains(&self, url: &String) -> (r: bool)
        ensures
            r == self@.contains(url@),
    {
        let n = self.urls.len();
        let mut i: usize = 0;
        while i < n
            invariant
                i <= n,
                n == self.urls@.len(),
                forall|j: int| 0 <= j < i ==> self.urls@[j]@ != url@,
            decreases n - i,
        {
            if self.urls[i] == *url {
                proof {
                    lemma_views_set_contains(self.urls@, url@);
                }
                return true;
            }
            i = i + 1;
        }
        proof {
            lemma_views_set_contains(self.urls@, url@);
        }
        false
    }

    /// Record `url`.  Recording a reference twice is a no-op, never an
    /// error, and a reference never changes set membership by it.
    pub fn insert(&mut self, url: String)
        ensures
            final(self)@ == old(self)@.insert(url@),
            final(self).spec_name() == old(self).spec_name(),
    {
        if !self.contains(&url) {
            let ghost prior = self.urls@;
            self.urls.push(url);
            proof {
                lemma_views_set_push(prior, url);
            }
        } else {
            proof {
                assert(self@.insert(url@) =~= self@);
            }
        }
    }

    /// Serialize every entry, one encoded reference per line.  The single
    /// clause is the durability law: the text parses back to exactly the
    /// entries of this ledger.
    pub fn to_lines(&self) -> (r: String)
        ensures
            spec_parse_lines(r@) == self@,
    {
        proof {
            assert(self.urls@.skip(0) =~= self.urls@);
        }
        lines_of_suffix(&self.urls, 0)
    }

    /// Load a ledger from flushed text: one entry per newline-terminated
    /// line that decodes; malformed lines are dropped.
    pub fn from_lines(name: String, text: &str) -> (r: PersistentSet)
        ensures
            r@ == spec_parse_lines(text@),
            r.spec_name() == name@,
    {
        let mut s = PersistentSet::new(name);
        let mut rest: &str = text;
        loop
            invariant
                s@.union(spec_parse_lines(rest@)) == spec_parse_lines(text@),
                s.spec_name() == name@,
            decreases rest@.len(),
        {
            match find_char(rest, '\n') {
                Some(i) => {
                    let ghost pre = s@;
                    let n = rest.unicode_len();
                    let seg = rest.substring_char(0, i);
                    match b64url_decode(seg) {
                        Some(bytes) => {
                            match bytes_to_string(bytes) {
                                Some(url) => {
                                    proof {
                                        assert(spec_decode_entry(rest@.subrange(0, i as int))
                                            is Some);
                                    }
                                    s.insert(url);
                                },
                                None => {},
                            }
                        },
                        None => {},
                    }
                    proof {
                        assert(s@.union(spec_parse_lines(rest@.skip(i + 1)))
                            =~= pre.union(spec_parse_lines(rest@)));
                    }
                    rest = rest.substring_char(i + 1, n);
                },
                None => {
                    proof {
                        assert(s@.union(spec_parse_lines(rest@)) =~= s@);
                    }
                    return s;
                },
            }
        }
    }
}

/// Append a views_set entry for a pushed url.
proof fn lemma_views_set_push(urls: Seq<String>, url: String)
    ensures
        views_set(urls.push(url)) == views_set(urls).insert(url@),
    decreases urls.len(),
{
    if urls.len() == 0 {
        assert(urls.push(url)[0] == url);
        assert(urls.push(url).drop_first() =~= Seq::<String>::empty());
        assert(views_set(urls.push(url)) == views_set(urls.push(url).drop_first()).insert(
            urls.push(url)[0]@,
        ));
        assert(views_set(Seq::<String>::empty()) == Set::<Seq<char>>::empty());
        assert(views_set(urls.push(url)) =~= views_set(urls).insert(url@));
    } else {
        assert(urls.push(url)[0] == urls[0]);
        assert(urls.push(url).drop_first() =~= urls.drop_first().push(url));
        lemma_views_set_push(urls.drop_first(), url);
        assert(views_set(urls.push(url)) =~= views_set(urls).insert(url@));
    }
}

/// The lines for the entries from position `i` on.
fn lines_of_suffix(urls: &Vec<String>, i: usize) -> (r: String)
    requires
        i <= urls@.len(),
    ensures
        spec_parse_lines(r@) == views_set(urls@.skip(i as int)),
    decreases urls@.len() - i,
{
    if i == urls.len() {
        let r = String::new();
        proof {
            assert(urls@.skip(i as int) =~= Seq::<String>::empty());
            assert(first_index_of(r@, seq!['\n']) is None) by {
                if exists|k: int| is_first_of(r@, seq!['\n'], k) {
                    let k = choose|k: int| is_first_of(r@, seq!['\n'], k);
                }
            }
        }
        r
    } else {
        let mut line = b64url_encode(urls[i].as_str().as_bytes());
        let ghost enc = line@;
        let rest = lines_of_suffix(urls, i + 1);
        line.append("\n");
        proof {
            reveal_strlit("\n");
        }
        line.append(rest.as_str());
        proof {
            assert(forall|j: int| 0 <= j < enc.len() ==> #[trigger] enc[j] != '\n') by {
                assert(forall|j: int| 0 <= j < enc.len() ==> b64url_char(#[trigger] enc[j]));
            }
            assert(line@ =~= enc + seq!['\n'] + rest@);
            lemma_parse_line_prefix(enc, rest@);
            assert(spec_decode_entry(enc) == Some(urls@[i as int]@)) by {
                vstd::utf8::encode_utf8_valid_utf8(urls@[i as int]@);
                vstd::utf8::encode_utf8_decode_utf8(urls@[i as int]@);
            }
            assert(urls@.skip(i as int)[0] == urls@[i as int]);
            assert(urls@.skip(i as int).drop_first() =~= urls@.skip(i as int + 1));
        }
        line
    }
}

/// The references a list of store file names decodes to.
pub open spec fn spec_decoded_names(names: Seq<Seq<char>>) -> Set<Seq<char>>
    decreases names.len(),
{
    if names.len() == 0 {
        Set::empty()
    } else {
        let rest = spec_decoded_names(names.drop_first());
        match spec_name_to_url(names[0]) {
            Some(u) => rest.insert(u),
            None => rest,
        }
    }
}

impl PersistentSet {
    /// Scan the store's file names and record every reference whose name
    /// decodes, recovering consistency even if a prior run skipped its
    /// flush.
    pub fn reconcile_from_store(&mut self, names: &Vec<String>)
        ensures
            final(self)@ == old(self)@.union(spec_decoded_names(names.deep_view())),
            final(self).spec_name() == old(self).spec_name(),
    {
        let n = names.len();
        proof {
            assert(names.deep_view().skip(0) =~= names.deep_view());
        }
        let mut i: usize = 0;
        while i < n
            invariant
                i <= n,
                n == names@.len(),
                names.deep_view().len() == names@.len(),
                forall|j: int|
                    0 <= j < names@.len() ==> names.deep_view()[j] == #[trigger] names@[j]@,
                self.spec_name() == old(self).spec_name(),
                self@.union(spec_decoded_names(names.deep_view().skip(i as int))) == old(
                    self,
                )@.union(spec_decoded_names(names.deep_view())),
            decreases n - i,
        {
            let ghost pre = self@;
            let ghost rem = names.deep_view().skip(i as int);
            match crate::store::name_to_url(names[i].as_str()) {
                Some(url) => {
                    self.insert(url);
                },
                None => {},
            }
            proof {
                assert(rem[0] == names.deep_view()[i as int]);
                assert(rem.drop_first() =~= names.deep_view().skip(i as int + 1));
                assert(self@.union(spec_decoded_names(names.deep_view().skip(i as int + 1)))
                    =~= pre.union(spec_decoded_names(rem)));
            }
            i = i + 1;
        }
        proof {
            assert(names.deep_view().skip(n as int) =~= Seq::<Seq<char>>::empty());
            assert(self@.union(Set::<Seq<char>>::empty()) =~= self@);
        }
    }
}

/// Law: reconciling from the same store listing twice leaves the ledger
/// exactly as reconciling once does.
pub proof fn lemma_reconcile_idempotent(s: Set<Seq<char>>, names: Seq<Seq<char>>)
    ensures
        s.union(spec_decoded_names(names)).union(spec_decoded_names(names)) == s.union(
            spec_decoded_names(names),
        ),
{
    assert(s.union(spec_decoded_names(names)).union(spec_decoded_names(names)) =~= s.union(
        spec_decoded_names(names),
    ));
}

} // verus!
