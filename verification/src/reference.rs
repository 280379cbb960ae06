use vstd::prelude::*;
use vstd::string::StrSliceExecFns;
use vstd::string::StringExecFns;
use crate::strutil::{find_char, find_last, find_char_in, find_last_in};
use crate::PullError;

verus! {

/// The part of a reference before its first ':', or the whole reference when
/// it has none.
pub open spec fn spec_path_part(s: Seq<char>) -> Seq<char> {
    match find_char(s, ':') {
        None => s,
        Some(i) => s.take(i),
    }
}

/// The part of a reference after its first ':', or "latest" when it has none.
pub open spec fn spec_tag_part(s: Seq<char>) -> Seq<char> {
    match find_char(s, ':') {
        None => "latest"@,
        Some(i) => s.skip(i + 1),
    }
}

/// The last '/'-separated segment of a path.
pub open spec fn spec_name_part(p: Seq<char>) -> Seq<char> {
    match find_last(p, '/') {
        None => p,
        Some(i) => p.skip(i + 1),
    }
}

/// The second-to-last '/'-separated segment of a path, or "library" when the
/// path is a single segment. Every segment before the last two is discarded;
/// a reference that names a registry host therefore loses the host segment.
pub open spec fn spec_author_part(p: Seq<char>) -> Seq<char> {
    match find_last(p, '/') {
        None => "library"@,
        Some(i) => {
            let q = p.take(i);
            match find_last(q, '/') {
                None => q,
                Some(j) => q.skip(j + 1),
            }
        },
    }
}

/// An image reference, decomposed into repository owner, image name and tag.
#[derive(Debug, PartialEq, Eq)]
pub struct ImageIdentifier {
    pub author: String,
    pub name: String,
    pub tag: String,
}

impl ImageIdentifier {
    /// Parses `[author/]name[:tag]`, keeping only the last two path segments
    /// and filling the documented defaults. An empty name is refused.
    pub fn from_string(image: &String) -> (r: Result<Self, PullError>)
        ensures
            match r {
                Ok(id) => {
                    &&& spec_name_part(spec_path_part(image@)).len() > 0
                    &&& id.author@ == spec_author_part(spec_path_part(image@))
                    &&& id.name@ == spec_name_part(spec_path_part(image@))
                    &&& id.tag@ == spec_tag_part(image@)
                },
                Err(e) => {
                    &&& spec_name_part(spec_path_part(image@)).len() == 0
                    &&& e == PullError::ReferenceParse
                },
            },
    {
        let s = image.as_str();
        let n = s.unicode_len();
        let (path, tag) = match find_char_in(s, ':') {
            None => (s, String::from_str("latest")),
            Some(i) => (s.substring_char(0, i), String::from_str(s.substring_char(i + 1, n))),
        };
        proof {
            assert(path@ =~= spec_path_part(s@));
            assert(tag@ =~= spec_tag_part(s@));
        }
        let plen = path.unicode_len();
        let (head, name) = match find_last_in(path, '/') {
            None => (s.substring_char(0, 0), path),
            Some(i) => (path.substring_char(0, i), path.substring_char(i + 1, plen)),
        };
        proof {
            assert(name@ =~= spec_name_part(path@));
        }
        if name.unicode_len() == 0 {
            return Err(PullError::ReferenceParse);
        }
        let author = match find_last_in(path, '/') {
            None => String::from_str("library"),
            Some(_) => {
                let hlen = head.unicode_len();
                match find_last_in(head, '/') {
                    None => String::from_str(head),
                    Some(j) => String::from_str(head.substring_char(j + 1, hlen)),
                }
            },
        };
        proof {
            assert(author@ =~= spec_author_part(path@));
        }
        Ok(ImageIdentifier { author, name: String::from_str(name), tag })
    }
}

/// Law: a bare name parses to the documented defaults, author "library" and
/// tag "latest", with the whole input as the name.
pub proof fn lemma_reference_defaults(s: Seq<char>)
    requires
        s.len() > 0,
        forall|j: int| 0 <= j < s.len() ==> s[j] != ':',
        forall|j: int| 0 <= j < s.len() ==> s[j] != '/',
    ensures
        spec_author_part(spec_path_part(s)) == "library"@,
        spec_name_part(spec_path_part(s)) == s,
        spec_tag_part(s) == "latest"@,
{
    crate::strutil::lemma_find_char_none(s, ':');
    crate::strutil::lemma_find_last_none(s, '/');
}

/// Law: a reference of the shape `author/name:tag`, with ':' and '/' free
/// author and name, parses to exactly that author, name and tag.
pub proof fn lemma_reference_full_shape(author: Seq<char>, name: Seq<char>, tag: Seq<char>)
    requires
        name.len() > 0,
        forall|j: int| 0 <= j < author.len() ==> author[j] != ':' && author[j] != '/',
        forall|j: int| 0 <= j < name.len() ==> name[j] != ':' && name[j] != '/',
    ensures
        ({
            let s = author + seq!['/'] + name + seq![':'] + tag;
            &&& spec_author_part(spec_path_part(s)) == author
            &&& spec_name_part(spec_path_part(s)) == name
            &&& spec_tag_part(s) == tag
        }),
{
    let s = author + seq!['/'] + name + seq![':'] + tag;
    let ci = author.len() + 1 + name.len();
    assert(s[ci as int] == ':');
    assert forall|j: int| 0 <= j < ci implies s[j] != ':' by {
        if j < author.len() {
            assert(s[j] == author[j]);
        } else if j == author.len() {
            assert(s[j] == '/');
        } else {
            assert(s[j] == name[j - author.len() - 1]);
        }
    }
    crate::strutil::lemma_find_char_at(s, ':', ci as int);
    let p = s.take(ci as int);
    assert(p =~= author + seq!['/'] + name);
    lemma_path_two_segments(author, name);
    crate::strutil::lemma_find_last_none(author, '/');
    assert(spec_tag_part(s) =~= tag);
}

/// Law: a reference of the shape `name:tag`, with a ':' and '/' free name,
/// parses to the default author "library", that name, and that tag.
pub proof fn lemma_reference_name_tag(name: Seq<char>, tag: Seq<char>)
    requires
        name.len() > 0,
        forall|j: int| 0 <= j < name.len() ==> name[j] != ':' && name[j] != '/',
    ensures
        ({
            let s = name + seq![':'] + tag;
            &&& spec_author_part(spec_path_part(s)) == "library"@
            &&& spec_name_part(spec_path_part(s)) == name
            &&& spec_tag_part(s) == tag
        }),
{
    let s = name + seq![':'] + tag;
    assert(s[name.len() as int] == ':');
    assert forall|j: int| 0 <= j < name.len() implies s[j] != ':' by {
        assert(s[j] == name[j]);
    }
    crate::strutil::lemma_find_char_at(s, ':', name.len() as int);
    let p = s.take(name.len() as int);
    assert(p =~= name);
    crate::strutil::lemma_find_last_none(p, '/');
    assert(spec_tag_part(s) =~= tag);
}

/// Law: a reference of the shape `author/name`, both parts ':' and '/' free,
/// parses to that author, that name, and the default tag "latest".
pub proof fn lemma_reference_author_name(author: Seq<char>, name: Seq<char>)
    requires
        name.len() > 0,
        forall|j: int| 0 <= j < author.len() ==> author[j] != ':' && author[j] != '/',
        forall|j: int| 0 <= j < name.len() ==> name[j] != ':' && name[j] != '/',
    ensures
        ({
            let s = author + seq!['/'] + name;
            &&& spec_author_part(spec_path_part(s)) == author
            &&& spec_name_part(spec_path_part(s)) == name
            &&& spec_tag_part(s) == "latest"@
        }),
{
    let s = author + seq!['/'] + name;
    assert forall|j: int| 0 <= j < s.len() implies s[j] != ':' by {
        if j < author.len() {
            assert(s[j] == author[j]);
        } else if j == author.len() {
            assert(s[j] == '/');
        } else {
            assert(s[j] == name[j - author.len() - 1]);
        }
    }
    crate::strutil::lemma_find_char_none(s, ':');
    lemma_path_two_segments(author, name);
    crate::strutil::lemma_find_last_none(author, '/');
}

/// Law: segments before the last two are dropped. A reference of the shape
/// `prefix/author/name:tag` parses to author, name and tag, whatever the
/// ':'-free prefix holds.
pub proof fn lemma_reference_host_dropped(prefix: Seq<char>, author: Seq<char>, name: Seq<char>, tag: Seq<char>)
    requires
        name.len() > 0,
        forall|j: int| 0 <= j < prefix.len() ==> prefix[j] != ':',
        forall|j: int| 0 <= j < author.len() ==> author[j] != ':' && author[j] != '/',
        forall|j: int| 0 <= j < name.len() ==> name[j] != ':' && name[j] != '/',
    ensures
        ({
            let s = prefix + seq!['/'] + author + seq!['/'] + name + seq![':'] + tag;
            &&& spec_author_part(spec_path_part(s)) == author
            &&& spec_name_part(spec_path_part(s)) == name
            &&& spec_tag_part(s) == tag
        }),
{
    let s = prefix + seq!['/'] + author + seq!['/'] + name + seq![':'] + tag;
    let head = prefix + seq!['/'] + author;
    let ci = head.len() + 1 + name.len();
    assert(s[ci as int] == ':');
    assert forall|j: int| 0 <= j < ci implies s[j] != ':' by {
        if j < prefix.len() {
            assert(s[j] == prefix[j]);
        } else if j == prefix.len() {
            assert(s[j] == '/');
        } else if j < head.len() {
            assert(s[j] == author[j - prefix.len() - 1]);
        } else if j == head.len() {
            assert(s[j] == '/');
        } else {
            assert(s[j] == name[j - head.len() - 1]);
        }
    }
    crate::strutil::lemma_find_char_at(s, ':', ci as int);
    let p = s.take(ci as int);
    assert(p =~= head + seq!['/'] + name);
    lemma_path_two_segments(head, name);
    assert(spec_author_part(p) == spec_name_part(head));
    let li = prefix.len();
    assert(head[li as int] == '/');
    assert forall|j: int| li < j < head.len() implies head[j] != '/' by {
        assert(head[j] == author[j - prefix.len() - 1]);
    }
    crate::strutil::lemma_find_last_at(head, '/', li as int);
    assert(spec_name_part(head) =~= author);
    assert(spec_tag_part(s) =~= tag);
}

/// On a path `head/name` with a '/'-free name, the name is the last segment
/// and the author is the last segment of the head.
proof fn lemma_path_two_segments(head: Seq<char>, name: Seq<char>)
    requires
        forall|j: int| 0 <= j < name.len() ==> name[j] != '/',
    ensures
        spec_name_part(head + seq!['/'] + name) == name,
        spec_author_part(head + seq!['/'] + name) == spec_name_part(head),
{
    let p = head + seq!['/'] + name;
    let li = head.len();
    assert(p[li as int] == '/');
    assert forall|j: int| li < j < p.len() implies p[j] != '/' by {
        assert(p[j] == name[j - head.len() - 1]);
    }
    crate::strutil::lemma_find_last_at(p, '/', li as int);
    assert(spec_name_part(p) =~= name);
    assert(p.take(li as int) =~= head);
}

} // verus!
