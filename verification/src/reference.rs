//! Image references: `registry/repository[:tag][@digest]`.
use vstd::prelude::*;
use crate::text::{
    lemma_last_index, lemma_first_index, lemma_absent, lemma_present, is_last_index, is_first_index,
    chars_of, string_of, rfind_char, find_char, contains_char, chars_equal,
    last_index_of, first_index_of,
};

verus! {

/// What selects an image inside a repository.
#[derive(PartialEq, Eq, Debug, Clone)]
pub enum Specifier {
    Digest(String),
    Tag(String),
}

/// The abstract value of a [`Specifier`].
pub ghost enum SpecifierView {
    Digest(Seq<char>),
    Tag(Seq<char>),
}

impl View for Specifier {
    type V = SpecifierView;

    open spec fn view(&self) -> SpecifierView {
        match self {
            Specifier::Digest(s) => SpecifierView::Digest(s@),
            Specifier::Tag(s) => SpecifierView::Tag(s@),
        }
    }
}

impl SpecifierView {
    /// The text of the specifier, whichever kind it is.
    pub open spec fn text(self) -> Seq<char> {
        match self {
            SpecifierView::Digest(s) => s,
            SpecifierView::Tag(s) => s,
        }
    }
}

impl Specifier {
    /// The digest or tag text, without saying which it is.
    pub fn as_typeless_str(&self) -> (s: &str)
        ensures
            s@ == self@.text(),
    {
        match self {
            Specifier::Digest(s) => s.as_str(),
            Specifier::Tag(s) => s.as_str(),
        }
    }
}

/// A parsed image reference.
///
/// A reference that names both a tag and a digest is selected by the digest;
/// the tag is kept in `tag` so that the reference still reads as written.
#[derive(Debug, Clone)]
pub struct Reference {
    pub registry: String,
    pub repository: String,
    pub specifier: Specifier,
    pub tag: Option<String>,
}

/// The abstract value of a [`Reference`].
pub ghost struct ReferenceView {
    pub registry: Seq<char>,
    pub repository: Seq<char>,
    pub specifier: SpecifierView,
    pub tag: Option<Seq<char>>,
}

impl View for Reference {
    type V = ReferenceView;

    open spec fn view(&self) -> ReferenceView {
        ReferenceView {
            registry: self.registry@,
            repository: self.repository@,
            specifier: self.specifier@,
            tag: match self.tag {
                Some(t) => Some(t@),
                None => None,
            },
        }
    }
}

/// Why an image reference was refused.
#[derive(PartialEq, Eq, Debug, Clone, Copy)]
pub enum ReferenceError {
    /// The first path component does not name a registry host.
    MissingRegistry,
    /// Nothing follows the registry.
    MissingRepository,
}

/// The message of a refused reference.
pub open spec fn reference_error_message(e: ReferenceError) -> Seq<char> {
    match e {
        ReferenceError::MissingRegistry => "image reference must include an explicit registry"@,
        ReferenceError::MissingRepository => "image repository is missing"@,
    }
}

impl ReferenceError {
    /// The message shown for this error.
    pub fn to_string(&self) -> (s: String)
        ensures
            s@ == reference_error_message(*self),
    {
        match self {
            ReferenceError::MissingRegistry => "image reference must include an explicit registry".to_owned(),
            ReferenceError::MissingRepository => "image repository is missing".to_owned(),
        }
    }
}

/// The host name `localhost`.
pub open spec fn localhost_chars() -> Seq<char> {
    seq!['l', 'o', 'c', 'a', 'l', 'h', 'o', 's', 't']
}

/// The default tag `latest`.
pub open spec fn latest_chars() -> Seq<char> {
    seq!['l', 'a', 't', 'e', 's', 't']
}

/// The part of `s` before the last `c`, and the part after it; all of `s`
/// and nothing when `c` does not occur.
pub open spec fn rsplit_once(s: Seq<char>, c: char) -> (Seq<char>, Option<Seq<char>>) {
    match last_index_of(s, c) {
        Some(i) => (s.take(i), Some(s.skip(i + 1))),
        None => (s, None),
    }
}

/// The first `/`-separated component of a name.
pub open spec fn registry_part(name: Seq<char>) -> Seq<char> {
    match first_index_of(name, '/') {
        Some(k) => name.take(k),
        None => name,
    }
}

/// The remaining components of a name, joined again by `/`.
pub open spec fn repository_part(name: Seq<char>) -> Seq<char> {
    match first_index_of(name, '/') {
        Some(k) => name.skip(k + 1),
        None => Seq::empty(),
    }
}

/// Whether the first component names a registry host: it holds a `.` or a
/// `:`, or it is `localhost`.
pub open spec fn names_registry(registry: Seq<char>) -> bool {
    registry.contains('.') || registry.contains(':') || registry == localhost_chars()
}

/// The meaning of an image reference string.
///
/// A digest after the last `@` wins over any tag; a tag follows the last `:`
/// of what precedes it; the tag defaults to `latest`.
pub open spec fn parse_reference(s: Seq<char>) -> Result<ReferenceView, ReferenceError> {
    let (name, digest) = rsplit_once(s, '@');
    let (base, tag) = rsplit_once(name, ':');
    let registry = registry_part(base);
    let repository = repository_part(base);
    if !names_registry(registry) {
        Err(ReferenceError::MissingRegistry)
    } else if repository.len() == 0 {
        Err(ReferenceError::MissingRepository)
    } else {
        Ok(ReferenceView {
            registry,
            repository,
            specifier: match digest {
                Some(d) => SpecifierView::Digest(d),
                None => SpecifierView::Tag(
                    match tag {
                        Some(t) => t,
                        None => latest_chars(),
                    },
                ),
            },
            tag: match digest {
                Some(_) => tag,
                None => None,
            },
        })
    }
}

/// The text form of a reference: `registry/repository` followed by `:tag`,
/// or by `@digest` after the kept tag, if any.
pub open spec fn format_reference(r: ReferenceView) -> Seq<char> {
    let prefix = r.registry + seq!['/'] + r.repository;
    match r.specifier {
        SpecifierView::Digest(d) => match r.tag {
            Some(t) => prefix + seq![':'] + t + seq!['@'] + d,
            None => prefix + seq!['@'] + d,
        },
        SpecifierView::Tag(t) => prefix + seq![':'] + t,
    }
}

/// A reference whose text form reads back as the same reference: the
/// registry names a host and holds no `/`, the repository is not empty, a
/// digest holds no `@`, a kept tag holds no `:`, beside a digest without a
/// tag neither registry nor repository holds a `:`, and a reference selected
/// by tag holds no `@` anywhere and no `:` in the tag.
pub open spec fn reads_back(r: ReferenceView) -> bool {
    &&& names_registry(r.registry)
    &&& !r.registry.contains('/')
    &&& r.repository.len() > 0
    &&& match r.specifier {
        SpecifierView::Digest(d) => {
            &&& !d.contains('@')
            &&& match r.tag {
                Some(t) => !t.contains(':'),
                None => !r.registry.contains(':') && !r.repository.contains(':'),
            }
        },
        SpecifierView::Tag(t) => {
            &&& !t.contains('@')
            &&& !t.contains(':')
            &&& !r.registry.contains('@')
            &&& !r.repository.contains('@')
            &&& r.tag is None
        },
    }
}

/// The pieces of a text that lacks a character lack it too.
proof fn lemma_pieces_lack(s: Seq<char>, c: char, k: int)
    requires
        !s.contains(c),
        0 <= k <= s.len(),
    ensures
        !s.take(k).contains(c),
        !s.skip(k).contains(c),
{
    let front = s.take(k);
    let back = s.skip(k);
    assert forall|j: int| 0 <= j < front.len() implies front[j] != c by {
        assert(front[j] == s[j]);
    }
    assert forall|j: int| 0 <= j < back.len() implies back[j] != c by {
        assert(back[j] == s[k + j]);
    }
}

/// What follows the last occurrence of a character lacks it.
proof fn lemma_after_last_lacks(s: Seq<char>, c: char, i: int)
    requires
        is_last_index(s, c, i),
    ensures
        !s.skip(i + 1).contains(c),
{
    let t = s.skip(i + 1);
    assert forall|j: int| 0 <= j < t.len() implies t[j] != c by {
        assert(t[j] == s[i + 1 + j]);
    }
}

/// Every reference that parsing gives reads back.
proof fn lemma_parsed_reads_back(s: Seq<char>)
    requires
        parse_reference(s) is Ok,
    ensures
        reads_back(parse_reference(s)->Ok_0),
{
    let name = rsplit_once(s, '@').0;
    let base = rsplit_once(name, ':').0;
    match last_index_of(s, '@') {
        Some(i) => {
            lemma_after_last_lacks(s, '@', i);
        },
        None => {
            if s.contains('@') {
                lemma_present(s, '@');
            }
            assert(name == s);
        },
    }
    match last_index_of(name, ':') {
        Some(k) => {
            lemma_after_last_lacks(name, ':', k);
            assert(base == name.take(k));
            if !name.contains('@') {
                lemma_pieces_lack(name, '@', k);
                lemma_pieces_lack(name, '@', k + 1);
            }
        },
        None => {
            if name.contains(':') {
                lemma_present(name, ':');
            }
            assert(base == name);
        },
    }
    let k = first_index_of(base, '/')->Some_0;
    assert(is_first_index(base, '/', k));
    let registry = base.take(k);
    assert forall|j: int| 0 <= j < registry.len() implies registry[j] != '/' by {
        assert(registry[j] == base[j]);
    }
    if !base.contains('@') {
        lemma_pieces_lack(base, '@', k);
        lemma_pieces_lack(base, '@', k + 1);
    }
    if !base.contains(':') {
        lemma_pieces_lack(base, ':', k);
        lemma_pieces_lack(base, ':', k + 1);
    }
    assert(!latest_chars().contains('@') && !latest_chars().contains(':')) by {
        let l = latest_chars();
        assert forall|j: int| 0 <= j < l.len() implies l[j] != '@' && l[j] != ':' by {}
    }
}

/// Printing a reference that parsing gave and parsing the text again gives
/// the same reference: registry, repository, what selects the image, and a
/// tag kept beside a digest.
pub proof fn lemma_parse_print_parse(s: Seq<char>)
    requires
        parse_reference(s) is Ok,
    ensures
        parse_reference(format_reference(parse_reference(s)->Ok_0)) == parse_reference(s),
{
    lemma_parsed_reads_back(s);
    lemma_parse_format_roundtrip(parse_reference(s)->Ok_0);
}

/// Parsing the text form of a reference that reads back gives the reference.
pub proof fn lemma_parse_format_roundtrip(r: ReferenceView)
    requires
        reads_back(r),
    ensures
        parse_reference(format_reference(r)) == Ok::<ReferenceView, ReferenceError>(r),
{
    let reg = r.registry;
    let repo = r.repository;
    let base = reg + seq!['/'] + repo;
    let s = format_reference(r);
    assert(is_first_index(base, '/', reg.len() as int)) by {
        assert forall|j: int| 0 <= j < reg.len() implies base[j] != '/' by {
            assert(reg[j] == base[j]);
        }
    }
    lemma_first_index(base, '/', reg.len() as int);
    assert(base.take(reg.len() as int) == reg);
    assert(base.skip(reg.len() as int + 1) == repo);
    match r.specifier {
        SpecifierView::Digest(d) if r.tag is Some => {
            let t = r.tag->Some_0;
            let name = base + seq![':'] + t;
            let i = name.len() as int;
            assert(s == name + seq!['@'] + d);
            assert(is_last_index(s, '@', i)) by {
                assert forall|j: int| i < j < s.len() implies s[j] != '@' by {
                    assert(s[j] == d[j - i - 1]);
                }
            }
            lemma_last_index(s, '@', i);
            assert(s.take(i) == name);
            assert(s.skip(i + 1) == d);
            let k = base.len() as int;
            assert(is_last_index(name, ':', k)) by {
                assert forall|j: int| k < j < name.len() implies name[j] != ':' by {
                    assert(name[j] == t[j - k - 1]);
                }
            }
            lemma_last_index(name, ':', k);
            assert(name.take(k) == base);
            assert(name.skip(k + 1) == t);
        },
        SpecifierView::Digest(d) => {
            let i = base.len() as int;
            assert(s == base + seq!['@'] + d);
            assert(is_last_index(s, '@', i)) by {
                assert forall|j: int| i < j < s.len() implies s[j] != '@' by {
                    assert(s[j] == d[j - i - 1]);
                }
            }
            lemma_last_index(s, '@', i);
            assert(s.take(i) == base);
            assert(s.skip(i + 1) == d);
            assert(!base.contains(':')) by {
                assert forall|j: int| 0 <= j < base.len() implies base[j] != ':' by {
                    if j < reg.len() {
                        assert(reg[j] == base[j]);
                    } else if j > reg.len() {
                        assert(repo[j - reg.len() - 1] == base[j]);
                    }
                }
            }
            lemma_absent(base, ':');
        },
        SpecifierView::Tag(t) => {
            let i = base.len() as int;
            assert(s == base + seq![':'] + t);
            assert forall|j: int| 0 <= j < base.len() implies base[j] != '@' by {
                if j < reg.len() {
                    assert(reg[j] == base[j]);
                } else if j > reg.len() {
                    assert(repo[j - reg.len() - 1] == base[j]);
                }
            }
            assert(!s.contains('@')) by {
                assert forall|j: int| 0 <= j < s.len() implies s[j] != '@' by {
                    if j < i {
                        assert(s[j] == base[j]);
                    } else if j > i {
                        assert(s[j] == t[j - i - 1]);
                    }
                }
            }
            lemma_absent(s, '@');
            assert(is_last_index(s, ':', i)) by {
                assert forall|j: int| i < j < s.len() implies s[j] != ':' by {
                    assert(s[j] == t[j - i - 1]);
                }
            }
            lemma_last_index(s, ':', i);
            assert(s.take(i) == base);
            assert(s.skip(i + 1) == t);
        },
    }
}

fn is_localhost(v: &[char], hi: usize) -> (r: bool)
    requires
        hi <= v@.len(),
    ensures
        r == (v@.subrange(0, hi as int) == localhost_chars()),
{
    let name = ['l', 'o', 'c', 'a', 'l', 'h', 'o', 's', 't'];
    let r = chars_equal(v, 0, hi, &name);
    assert(name@ == localhost_chars());
    r
}

impl Reference {
    /// Parses `registry/repository[:tag][@digest]`.
    pub fn parse(input: &str) -> (r: Result<Reference, ReferenceError>)
        ensures
            match (r, parse_reference(input@)) {
                (Ok(reference), Ok(view)) => reference@ == view,
                (Err(e), Err(f)) => e == f,
                _ => false,
            },
    {
        let v = chars_of(input);
        let n = v.len();
        let at = rfind_char(v.as_slice(), n, '@');
        let name_end = match at {
            Some(i) => i,
            None => n,
        };
        let colon = rfind_char(v.as_slice(), name_end, ':');
        let base_end = match colon {
            Some(i) => i,
            None => name_end,
        };
        let slash = find_char(v.as_slice(), base_end, '/');
        let registry_end = match slash {
            Some(k) => k,
            None => base_end,
        };
        let ghost s = input@;
        let ghost name = rsplit_once(s, '@').0;
        let ghost base = rsplit_once(name, ':').0;
        assert(v@.take(n as int) == s);
        assert(name == v@.take(name_end as int));
        assert(v@.take(name_end as int).take(base_end as int) == v@.take(base_end as int));
        assert(base == v@.take(base_end as int));
        assert(registry_part(base) == v@.subrange(0, registry_end as int));
        let has_dot = contains_char(v.as_slice(), 0, registry_end, '.');
        let has_colon = contains_char(v.as_slice(), 0, registry_end, ':');
        let local = is_localhost(v.as_slice(), registry_end);
        if !has_dot && !has_colon && !local {
            return Err(ReferenceError::MissingRegistry);
        }
        let registry = string_of(v.as_slice(), 0, registry_end);
        let repository = match slash {
            Some(k) => string_of(v.as_slice(), k + 1, base_end),
            None => String::new(),
        };
        assert(repository@ == repository_part(base)) by {
            if let Some(k) = slash {
                assert(base.skip(k + 1) == v@.subrange(k + 1, base_end as int));
            }
        }
        if repository.as_str().is_empty() {
            return Err(ReferenceError::MissingRepository);
        }
        let kept_tag = match (at, colon) {
            (Some(_), Some(j)) => {
                let t = string_of(v.as_slice(), j + 1, name_end);
                assert(name.skip(j + 1) == v@.subrange(j + 1, name_end as int));
                Some(t)
            },
            _ => None,
        };
        let specifier = match at {
            Some(i) => {
                let d = string_of(v.as_slice(), i + 1, n);
                assert(s.skip(i + 1) == v@.subrange(i + 1, n as int));
                Specifier::Digest(d)
            },
            None => match colon {
                Some(j) => {
                    let t = string_of(v.as_slice(), j + 1, name_end);
                    assert(name.skip(j + 1) == v@.subrange(j + 1, name_end as int));
                    Specifier::Tag(t)
                },
                None => {
                    let t = "latest".to_owned();
                    proof {
                        reveal_strlit("latest");
                    }
                    assert(t@ == latest_chars());
                    Specifier::Tag(t)
                },
            },
        };
        Ok(Reference { registry, repository, specifier, tag: kept_tag })
    }

    /// The same image, selected by `digest`; a kept tag stays.
    pub fn with_digest(&self, digest: String) -> (r: Reference)
        ensures
            r@ == (ReferenceView {
                registry: self@.registry,
                repository: self@.repository,
                specifier: SpecifierView::Digest(digest@),
                tag: self@.tag,
            }),
    {
        Reference {
            registry: crate::text::copy_string(&self.registry),
            repository: crate::text::copy_string(&self.repository),
            specifier: Specifier::Digest(digest),
            tag: match &self.tag {
                Some(t) => Some(crate::text::copy_string(t)),
                None => None,
            },
        }
    }

    /// The text form `registry/repository@digest` or `registry/repository:tag`.
    pub fn to_string(&self) -> (s: String)
        ensures
            s@ == format_reference(self@),
    {
        let mut s = self.registry.clone();
        s.push('/');
        s.push_str(self.repository.as_str());
        match &self.specifier {
            Specifier::Digest(d) => {
                match &self.tag {
                    Some(t) => {
                        s.push(':');
                        s.push_str(t.as_str());
                    },
                    None => {},
                }
                s.push('@');
                s.push_str(d.as_str());
            },
            Specifier::Tag(t) => {
                s.push(':');
                s.push_str(t.as_str());
            },
        }
        s
    }
}

} // verus!
