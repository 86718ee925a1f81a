//! Content helpers: the kind of a piece of content, file names, on-disk
//! locations of content, and the in-memory thumbnail cache.

use indexmap::IndexMap;
use vstd::prelude::*;

verus! {

/// Compares two strings character by character.
fn str_eq(a: &str, b: &str) -> (r: bool)
    ensures
        r == (a@ == b@),
{
    let n = a.unicode_len();
    if n != b.unicode_len() {
        return false;
    }
    let mut i: usize = 0;
    while i < n
        invariant
            n == a@.len(),
            n == b@.len(),
            i <= n,
            a@.take(i as int) == b@.take(i as int),
        decreases n - i,
    {
        if a.get_char(i) != b.get_char(i) {
            assert(a@[i as int] != b@[i as int]);
            return false;
        }
        assert(a@.take(i + 1) == a@.take(i as int).push(a@[i as int]));
        assert(b@.take(i + 1) == b@.take(i as int).push(b@[i as int]));
        i = i + 1;
    }
    assert(a@ == a@.take(n as int));
    assert(b@ == b@.take(n as int));
    true
}

/// The top-level part of a MIME type: everything before the first `/`
/// (the whole text when it holds no `/`).
pub open spec fn mime_top_level(m: Seq<char>) -> Seq<char>
    decreases m.len(),
{
    if m.len() == 0 {
        m
    } else if m[0] == '/' {
        Seq::empty()
    } else {
        seq![m[0]] + mime_top_level(m.drop_first())
    }
}

/// Index just past the last `/` of `p`, or 0 where `p` holds none.
pub open spec fn segment_start(p: Seq<char>) -> int
    decreases p.len(),
{
    if p.len() == 0 {
        0
    } else if p.last() == '/' {
        p.len() as int
    } else {
        segment_start(p.drop_last())
    }
}

/// The last component of a `/`-separated path: empty components and `.`
/// components do not count, a final `..` names no file, and neither does a
/// path without components.
pub open spec fn file_name_of(p: Seq<char>) -> Option<Seq<char>>
    decreases p.len(),
{
    if p.len() == 0 {
        None
    } else if p.last() == '/' {
        file_name_of(p.drop_last())
    } else {
        let k = segment_start(p);
        let seg = p.subrange(k, p.len() as int);
        if seg == "."@ {
            if k <= 0 || k >= p.len() {
                None
            } else {
                file_name_of(p.take(k))
            }
        } else if seg == ".."@ {
            None
        } else {
            Some(seg)
        }
    }
}

/// What `get_filename` returns for a path.
pub open spec fn filename_or_unknown(p: Seq<char>) -> Seq<char> {
    match file_name_of(p) {
        Some(name) => name,
        None => "unknown"@,
    }
}

/// The file name of `path`, or `unknown` where it names none.
pub fn get_filename(path: &str) -> (r: String)
    ensures
        r@ == filename_or_unknown(path@),
{
    let n = path.unicode_len();
    let mut end: usize = n;
    assert(path@.take(n as int) =~= path@);
    while end > 0
        invariant
            n == path@.len(),
            end <= n,
            file_name_of(path@) == file_name_of(path@.take(end as int)),
        decreases end,
    {
        let ghost p = path@.take(end as int);
        if path.get_char(end - 1) == '/' {
            assert(p.drop_last() =~= path@.take(end - 1));
            end = end - 1;
        } else {
            let mut j: usize = end;
            while j > 0 && path.get_char(j - 1) != '/'
                invariant
                    n == path@.len(),
                    j <= end <= n,
                    p == path@.take(end as int),
                    segment_start(p) == segment_start(path@.take(j as int)),
                    forall|k: int| j <= k < end ==> path@[k] != '/',
                decreases j,
            {
                assert(path@.take(j as int).drop_last() =~= path@.take(j - 1));
                j = j - 1;
            }
            assert(segment_start(p) == j);
            assert(j < end);
            let seg = path.substring_char(j, end);
            assert(seg@ =~= p.subrange(j as int, p.len() as int));
            if str_eq(seg, ".") {
                if j == 0 {
                    return String::from_str("unknown");
                }
                assert(p.take(j as int) =~= path@.take(j as int));
                end = j;
            } else if str_eq(seg, "..") {
                return String::from_str("unknown");
            } else {
                return String::from_str(seg);
            }
        }
    }
    String::from_str("unknown")
}

/// The broad kind of a piece of content.
#[derive(Debug, Clone, Copy, PartialEq, Eq, Structural)]
pub enum ContentType {
    Image,
    Audio,
    Video,
    Other,
}

/// The content kind that a MIME type names by its top-level part.
pub open spec fn content_type_of(mimetype: Seq<char>) -> ContentType {
    let top = mime_top_level(mimetype);
    if top == "image"@ {
        ContentType::Image
    } else if top == "audio"@ {
        ContentType::Audio
    } else if top == "video"@ {
        ContentType::Video
    } else {
        ContentType::Other
    }
}

proof fn lemma_mime_top_level_step(m: Seq<char>, i: int)
    requires
        0 <= i < m.len(),
        m[i] != '/',
    ensures
        mime_top_level(m.skip(i)) == seq![m[i]] + mime_top_level(m.skip(i + 1)),
{
    assert(m.skip(i).drop_first() =~= m.skip(i + 1));
}

impl ContentType {
    /// The content kind named by the top-level part of `mimetype`.
    pub fn new(mimetype: &str) -> (r: ContentType)
        ensures
            r == content_type_of(mimetype@),
    {
        let n = mimetype.unicode_len();
        let mut i: usize = 0;
        assert(mimetype@.skip(0) =~= mimetype@);
        assert(mimetype@.take(0) =~= Seq::<char>::empty());
        while i < n && mimetype.get_char(i) != '/'
            invariant
                n == mimetype@.len(),
                i <= n,
                mime_top_level(mimetype@) == mimetype@.take(i as int) + mime_top_level(
                    mimetype@.skip(i as int),
                ),
            decreases n - i,
        {
            proof {
                lemma_mime_top_level_step(mimetype@, i as int);
                assert(mimetype@.take(i + 1) == mimetype@.take(i as int) + seq![mimetype@[i as int]]);
            }
            i = i + 1;
        }
        proof {
            if i < n {
                assert(mimetype@.skip(i as int)[0] == '/');
            } else {
                assert(mimetype@.skip(i as int).len() == 0);
            }
            assert(mime_top_level(mimetype@) =~= mimetype@.subrange(0, i as int));
        }
        let top = mimetype.substring_char(0, i);
        if str_eq(top, "image") {
            ContentType::Image
        } else if str_eq(top, "audio") {
            ContentType::Audio
        } else if str_eq(top, "video") {
            ContentType::Video
        } else {
            ContentType::Other
        }
    }
}

impl<'a> From<&'a str> for ContentType {
    fn from(other: &'a str) -> (r: ContentType)
        ensures
            r == content_type_of(other@),
    {
        ContentType::new(other)
    }
}

impl<'a> vstd::std_specs::convert::FromSpecImpl<&'a str> for ContentType {
    open spec fn obeys_from_spec() -> bool {
        true
    }

    open spec fn from_spec(v: &'a str) -> ContentType {
        content_type_of(v@)
    }
}


/// The MIME type that `infer::get` recognises in the given bytes, if any.
pub uninterp spec fn sniffed_mime(data: Seq<u8>) -> Option<Seq<char>>;

/// Relies on `infer::get` and `infer::Type::mime_type`: the MIME type of the
/// first file type whose matcher accepts the bytes; the result depends on the
/// bytes alone.
#[verifier::external_body]
fn sniff_mime(data: &[u8]) -> (r: Option<String>)
    ensures
        match r {
            Some(m) => sniffed_mime(data@) == Some(m@),
            None => sniffed_mime(data@) is None,
        },
{
    infer::get(data).map(|t| t.mime_type().to_string())
}

/// The MIME type of a blob: the sniffed one, else the generic binary type.
pub open spec fn mimetype_of_bytes(data: Seq<u8>) -> Seq<char> {
    match sniffed_mime(data) {
        Some(m) => m,
        None => "application/octet-stream"@,
    }
}

/// Guesses the MIME type of `data` from its leading bytes.
pub fn infer_mimetype_from_bytes(data: &[u8]) -> (r: String)
    ensures
        r@ == mimetype_of_bytes(data@),
{
    match sniff_mime(data) {
        Some(m) => m,
        None => String::from_str("application/octet-stream"),
    }
}

/// The location of a piece of content: the authority (the server part)
/// and the path of its URL.
#[derive(Debug, Clone)]
pub struct ContentUrl {
    pub authority: Option<String>,
    pub path: String,
}

/// The text of an optional string.
pub open spec fn opt_view(o: Option<String>) -> Option<Seq<char>> {
    match o {
        Some(s) => Some(s@),
        None => None,
    }
}

/// `s` with every `.` replaced by `_`.
pub open spec fn dots_to_underscores(s: Seq<char>) -> Seq<char> {
    s.map_values(|c: char| if c == '.' { '_' } else { c })
}

/// The folder that holds the content of an authority under `data_dir`.
pub open spec fn content_folder_of(data_dir: Seq<char>, url: ContentUrl) -> Option<Seq<char>> {
    match url.authority {
        Some(a) => Some(data_dir + "content/"@ + dots_to_underscores(a@)),
        None => None,
    }
}

/// The file name of a content: its URL path without the leading character.
pub open spec fn content_filename_of(url: ContentUrl) -> Option<Seq<char>> {
    if url.path@.len() == 0 {
        None
    } else {
        Some(url.path@.drop_first())
    }
}

/// `name` joined below `dir` as a path: an absolute `name` replaces `dir`,
/// and a separator is put between them where `dir` lacks a trailing one.
pub open spec fn join_path(dir: Seq<char>, name: Seq<char>) -> Seq<char> {
    if name.len() > 0 && name[0] == '/' {
        name
    } else if dir.len() == 0 || dir.last() == '/' {
        dir + name
    } else {
        dir + "/"@ + name
    }
}

/// The on-disk location of a content under `data_dir`.
pub open spec fn content_path_of(data_dir: Seq<char>, url: ContentUrl) -> Option<Seq<char>> {
    match (content_folder_of(data_dir, url), content_filename_of(url)) {
        (Some(dir), Some(name)) => Some(join_path(dir, name)),
        _ => None,
    }
}

fn replace_dots(s: &str) -> (r: String)
    ensures
        r@ == dots_to_underscores(s@),
{
    let n = s.unicode_len();
    let mut out = String::new();
    let mut i: usize = 0;
    while i < n
        invariant
            n == s@.len(),
            i <= n,
            out@ == dots_to_underscores(s@.take(i as int)),
        decreases n - i,
    {
        let c = s.get_char(i);
        if c == '.' {
            out.append("_");
        } else {
            out.append(s.substring_char(i, i + 1));
        }
        proof {
            reveal_strlit("_");
            assert(s@.take(i + 1) =~= s@.take(i as int).push(c));
            assert(dots_to_underscores(s@.take(i + 1)) =~= dots_to_underscores(s@.take(i as int))
                + seq![if c == '.' { '_' } else { c }]);
        }
        i = i + 1;
    }
    assert(s@.take(n as int) =~= s@);
    out
}

/// The folder under `data_dir` that holds the content of `content_url`'s
/// authority, with the authority's dots written as underscores.
pub fn make_content_folder(data_dir: &str, content_url: &ContentUrl) -> (r: Option<String>)
    ensures
        opt_view(r) == content_folder_of(data_dir@, *content_url),
{
    match &content_url.authority {
        Some(authority) => {
            let mut folder = String::from_str(data_dir);
            folder.append("content/");
            let mapped = replace_dots(authority.as_str());
            folder.append(mapped.as_str());
            Some(folder)
        },
        None => None,
    }
}

/// The file name under which `content_url` is stored.
pub fn make_content_filename(content_url: &ContentUrl) -> (r: Option<String>)
    ensures
        opt_view(r) == content_filename_of(*content_url),
{
    let path = content_url.path.as_str();
    let n = path.unicode_len();
    if n == 0 {
        None
    } else {
        let rest = path.substring_char(1, n);
        assert(rest@ =~= path@.drop_first());
        Some(String::from_str(rest))
    }
}

fn join(dir: String, name: String) -> (r: String)
    ensures
        r@ == join_path(dir@, name@),
{
    let dn = dir.as_str().unicode_len();
    let nn = name.as_str().unicode_len();
    if nn > 0 && name.as_str().get_char(0) == '/' {
        name
    } else if dn == 0 || dir.as_str().get_char(dn - 1) == '/' {
        let mut out = dir;
        out.append(name.as_str());
        out
    } else {
        let mut out = dir;
        out.append("/");
        out.append(name.as_str());
        out
    }
}

/// The on-disk location of `content_url` under `data_dir`.
pub fn make_content_path(data_dir: &str, content_url: &ContentUrl) -> (r: Option<String>)
    ensures
        opt_view(r) == content_path_of(data_dir@, *content_url),
{
    let dir = match make_content_folder(data_dir, content_url) {
        Some(d) => d,
        None => return None,
    };
    match make_content_filename(content_url) {
        Some(name) => Some(join(dir, name)),
        None => None,
    }
}

/// Declares `indexmap::IndexMap` as an opaque type: what a map holds is
/// known only through `blob_entries` and the wrappers below.
#[verifier::external_type_specification]
#[verifier::external_body]
#[verifier::reject_recursive_types(K)]
#[verifier::reject_recursive_types(V)]
#[verifier::reject_recursive_types(S)]
pub struct ExIndexMap<K, V, S>(IndexMap<K, V, S>);


/// A cache key: the text of a content URL's authority and path.
pub type UrlKey = (Option<Seq<char>>, Seq<char>);

/// A cached entry: its key and the bytes it holds.
pub type CacheEntry = (UrlKey, Seq<u8>);

/// The map type that holds the cache, keyed by authority and path.
pub type BlobMap = IndexMap<(Option<String>, String), Vec<u8>>;

/// The key under which `url` is cached.
pub open spec fn url_key(url: ContentUrl) -> UrlKey {
    (opt_view(url.authority), url.path@)
}

/// The text of a map key.
pub open spec fn key_view(k: (Option<String>, String)) -> UrlKey {
    (opt_view(k.0), k.1@)
}

/// The entries of an `IndexMap`, in its order: oldest insertion first.
pub uninterp spec fn blob_entries(m: BlobMap) -> Seq<CacheEntry>;

/// Relies on `IndexMap::new`: a new map is empty.
#[verifier::external_body]
fn blob_map_new() -> (r: BlobMap)
    ensures
        blob_entries(r) == Seq::<CacheEntry>::empty(),
{
    IndexMap::new()
}

/// Relies on `IndexMap::len`: the number of entries.
#[verifier::external_body]
fn blob_map_len(m: &BlobMap) -> (r: usize)
    ensures
        r == blob_entries(*m).len(),
{
    m.len()
}

/// Relies on `IndexMap::get_index`: the value at a position of the order.
#[verifier::external_body]
fn blob_map_value_at(m: &BlobMap, i: usize) -> (r: Option<&Vec<u8>>)
    ensures
        match r {
            Some(v) => i < blob_entries(*m).len() && v@ == blob_entries(*m)[i as int].1,
            None => i >= blob_entries(*m).len(),
        },
{
    m.get_index(i).map(|(_, v)| v)
}

/// Relies on `IndexMap::get`: the value stored under an equal key.
#[verifier::external_body]
fn blob_map_get<'a>(m: &'a BlobMap, k: &(Option<String>, String)) -> (r: Option<&'a Vec<u8>>)
    ensures
        match r {
            Some(v) => lookup(blob_entries(*m), key_view(*k)) == Some(v@),
            None => lookup(blob_entries(*m), key_view(*k)) is None,
        },
{
    m.get(k)
}

/// Relies on `IndexMap::insert`: a new key goes last in the order; the value
/// of a key already present is replaced in its place.
#[verifier::external_body]
fn blob_map_insert(m: &mut BlobMap, k: (Option<String>, String), v: Vec<u8>)
    ensures
        lookup(blob_entries(*old(m)), key_view(k)) is None ==> blob_entries(*final(m))
            == blob_entries(*old(m)).push((key_view(k), v@)),
        lookup(blob_entries(*old(m)), key_view(k)) is Some ==> exists|i: int|
            0 <= i < blob_entries(*old(m)).len() && blob_entries(*old(m))[i].0 == key_view(k)
                && blob_entries(*final(m)) == blob_entries(*old(m)).update(i, (key_view(k), v@)),
{
    m.insert(k, v);
}

/// Relies on `IndexMap::shift_remove`: the entry of an equal key leaves, and
/// the others keep their order.
#[verifier::external_body]
fn blob_map_shift_remove(m: &mut BlobMap, k: &(Option<String>, String))
    ensures
        blob_entries(*final(m)) == without_key(blob_entries(*old(m)), key_view(*k)),
{
    m.shift_remove(k);
}

/// Relies on `IndexMap::shift_remove_index`: the entry at a position leaves,
/// and the others keep their order.
#[verifier::external_body]
fn blob_map_shift_remove_index(m: &mut BlobMap, i: usize)
    ensures
        i < blob_entries(*old(m)).len() ==> blob_entries(*final(m)) == blob_entries(
            *old(m),
        ).remove(i as int),
        i >= blob_entries(*old(m)).len() ==> blob_entries(*final(m)) == blob_entries(*old(m)),
{
    m.shift_remove_index(i);
}

/// The bytes stored under `k`, looking from the newest entry back.
pub open spec fn lookup(s: Seq<CacheEntry>, k: UrlKey) -> Option<Seq<u8>>
    decreases s.len(),
{
    if s.len() == 0 {
        None
    } else if s.last().0 == k {
        Some(s.last().1)
    } else {
        lookup(s.drop_last(), k)
    }
}

/// The entries whose key is not `k`, in their order.
pub open spec fn without_key(s: Seq<CacheEntry>, k: UrlKey) -> Seq<CacheEntry> {
    s.filter(|e: CacheEntry| e.0 != k)
}

/// No two entries share a key.
pub open spec fn keys_unique(s: Seq<CacheEntry>) -> bool
    decreases s.len(),
{
    s.len() == 0 || (keys_unique(s.drop_last()) && lookup(s.drop_last(), s.last().0) is None)
}

/// The size of what is stored under `k`, zero where nothing is.
pub open spec fn size_under(s: Seq<CacheEntry>, k: UrlKey) -> nat {
    match lookup(s, k) {
        Some(b) => b.len(),
        None => 0,
    }
}

/// The number of bytes held by the entries.
pub open spec fn blobs_total(s: Seq<CacheEntry>) -> nat
    decreases s.len(),
{
    if s.len() == 0 {
        0
    } else {
        blobs_total(s.drop_last()) + s.last().1.len()
    }
}

/// The least `k` from `from` on such that the oldest `k` entries hold at least
/// `size` bytes; none where all of them together hold fewer.
pub open spec fn covering_prefix(s: Seq<CacheEntry>, size: nat, from: nat) -> Option<nat>
    decreases s.len() - from,
{
    if from <= s.len() && blobs_total(s.take(from as int)) >= size {
        Some(from)
    } else if from >= s.len() {
        None
    } else {
        covering_prefix(s, size, from + 1)
    }
}

/// The entries after putting `e` into a cache holding `s` within `budget`
/// bytes. An entry under the same key leaves first. A blob larger than the
/// budget is dropped. Where the blob does not fit, the oldest entries are
/// evicted, the fewest that together free at least the blob's size; where
/// all of them together free less, the blob is dropped and nothing evicted.
pub open spec fn put_result(s: Seq<CacheEntry>, e: CacheEntry, budget: nat) -> Seq<CacheEntry> {
    let base = without_key(s, e.0);
    let size = e.1.len();
    if size > budget {
        base
    } else if blobs_total(base) + size <= budget {
        base.push(e)
    } else {
        match covering_prefix(base, size, 0) {
            Some(k) => base.skip(k as int).push(e),
            None => base,
        }
    }
}

proof fn lemma_total_take_step(s: Seq<CacheEntry>, k: int)
    requires
        0 <= k < s.len(),
    ensures
        blobs_total(s.take(k + 1)) == blobs_total(s.take(k)) + s[k].1.len(),
{
    assert(s.take(k + 1).drop_last() =~= s.take(k));
}

proof fn lemma_total_split(s: Seq<CacheEntry>, k: int)
    requires
        0 <= k <= s.len(),
    ensures
        blobs_total(s) == blobs_total(s.take(k)) + blobs_total(s.skip(k)),
    decreases s.len(),
{
    if k == s.len() {
        assert(s.take(k) =~= s);
        assert(s.skip(k).len() == 0);
    } else {
        lemma_total_split(s.drop_last(), k);
        assert(s.drop_last().take(k) =~= s.take(k));
        assert(s.skip(k).drop_last() =~= s.drop_last().skip(k));
    }
}

proof fn lemma_total_without_key(s: Seq<CacheEntry>, k: UrlKey)
    ensures
        blobs_total(without_key(s, k)) <= blobs_total(s),
    decreases s.len(),
{
    reveal_with_fuel(Seq::filter, 1);
    if s.len() > 0 {
        lemma_total_without_key(s.drop_last(), k);
        let sub = without_key(s.drop_last(), k);
        assert(sub.push(s.last()).drop_last() =~= sub);
    }
}

proof fn lemma_lookup_without_key(s: Seq<CacheEntry>, k: UrlKey, k2: UrlKey)
    ensures
        lookup(without_key(s, k), k2) == if k2 == k {
            None
        } else {
            lookup(s, k2)
        },
    decreases s.len(),
{
    reveal_with_fuel(Seq::filter, 1);
    if s.len() > 0 {
        lemma_lookup_without_key(s.drop_last(), k, k2);
        let sub = without_key(s.drop_last(), k);
        assert(sub.push(s.last()).drop_last() =~= sub);
    }
}

proof fn lemma_lookup_none(s: Seq<CacheEntry>, k: UrlKey)
    ensures
        lookup(s, k) is None <==> forall|i: int| 0 <= i < s.len() ==> s[i].0 != k,
    decreases s.len(),
{
    if s.len() > 0 {
        lemma_lookup_none(s.drop_last(), k);
        if lookup(s, k) is None {
            assert forall|i: int| 0 <= i < s.len() implies s[i].0 != k by {
                if i < s.len() - 1 {
                    assert(s[i] == s.drop_last()[i]);
                }
            }
        } else if s.last().0 != k {
            let i = choose|i: int| 0 <= i < s.drop_last().len() && s.drop_last()[i].0 == k;
            assert(s[i] == s.drop_last()[i]);
        }
    }
}

proof fn lemma_without_key_unique(s: Seq<CacheEntry>, k: UrlKey)
    requires
        keys_unique(s),
    ensures
        keys_unique(without_key(s, k)),
        blobs_total(without_key(s, k)) + size_under(s, k) == blobs_total(s),
    decreases s.len(),
{
    reveal_with_fuel(Seq::filter, 1);
    if s.len() > 0 {
        let t = s.drop_last();
        lemma_without_key_unique(t, k);
        lemma_lookup_without_key(t, k, s.last().0);
        let sub = without_key(t, k);
        assert(sub.push(s.last()).drop_last() =~= sub);
        if s.last().0 == k {
            assert(size_under(t, k) == 0);
        }
    }
}

proof fn lemma_skip_unique(s: Seq<CacheEntry>, k: int)
    requires
        keys_unique(s),
        0 <= k <= s.len(),
    ensures
        keys_unique(s.skip(k)),
    decreases s.len(),
{
    if k < s.len() {
        let t = s.drop_last();
        lemma_skip_unique(t, k);
        assert(s.skip(k).drop_last() =~= t.skip(k));
        lemma_lookup_none(t, s.last().0);
        lemma_lookup_none(t.skip(k), s.last().0);
        assert forall|j: int| 0 <= j < t.skip(k).len() implies t.skip(k)[j].0 != s.last().0 by {
            assert(t.skip(k)[j] == t[j + k]);
        }
    } else {
        assert(s.skip(k).len() == 0);
    }
}

proof fn lemma_total_push(s: Seq<CacheEntry>, e: CacheEntry)
    ensures
        blobs_total(s.push(e)) == blobs_total(s) + e.1.len(),
{
    assert(s.push(e).drop_last() =~= s);
}

proof fn lemma_covering_prefix(s: Seq<CacheEntry>, size: nat, from: nat)
    requires
        from <= s.len(),
    ensures
        match covering_prefix(s, size, from) {
            Some(k) => from <= k <= s.len() && blobs_total(s.take(k as int)) >= size && forall|j: int|
                from <= j < k ==> blobs_total(#[trigger] s.take(j)) < size,
            None => blobs_total(s) < size,
        },
    decreases s.len() - from,
{
    if blobs_total(s.take(from as int)) >= size {
    } else if from >= s.len() {
        assert(s.take(from as int) =~= s);
    } else {
        lemma_covering_prefix(s, size, from + 1);
    }
}

proof fn lemma_without_absent_key(s: Seq<CacheEntry>, k: UrlKey)
    requires
        lookup(s, k) is None,
    ensures
        without_key(s, k) == s,
    decreases s.len(),
{
    reveal_with_fuel(Seq::filter, 1);
    if s.len() > 0 {
        lemma_without_absent_key(s.drop_last(), k);
        assert(s.drop_last().push(s.last()) =~= s);
    }
}

/// Putting a blob into a store within its budget leaves it within budget,
/// and a blob larger than the whole budget is never retained.
pub proof fn lemma_put_within_budget(s: Seq<CacheEntry>, e: CacheEntry, budget: nat)
    requires
        blobs_total(s) <= budget,
        keys_unique(s),
    ensures
        blobs_total(put_result(s, e, budget)) <= budget,
        e.1.len() > budget ==> lookup(put_result(s, e, budget), e.0) is None,
{
    let base = without_key(s, e.0);
    let size = e.1.len();
    lemma_without_key_unique(s, e.0);
    lemma_lookup_without_key(s, e.0, e.0);
    if size <= budget && blobs_total(base) + size > budget {
        lemma_covering_prefix(base, size, 0);
        match covering_prefix(base, size, 0) {
            Some(k) => {
                lemma_total_split(base, k as int);
                lemma_total_push(base.skip(k as int), e);
            },
            None => {},
        }
    } else if size <= budget {
        lemma_total_push(base, e);
    }
}

/// Putting a blob with a new key into a full store keeps the newest entries:
/// either the blob is dropped (all entries together hold fewer bytes than
/// it), or the result is a suffix of the old entries followed by the blob,
/// within budget, where the evicted oldest entries are the fewest that free
/// at least the blob's size.
pub proof fn lemma_put_evicts_oldest(s: Seq<CacheEntry>, e: CacheEntry, budget: nat)
    requires
        blobs_total(s) <= budget,
        keys_unique(s),
        lookup(s, e.0) is None,
        e.1.len() <= budget,
        blobs_total(s) + e.1.len() > budget,
    ensures
        (put_result(s, e, budget) == s && blobs_total(s) < e.1.len()) || exists|k: int|
            0 <= k <= s.len() && put_result(s, e, budget) == s.skip(k).push(e) && blobs_total(
                s.skip(k),
            ) + e.1.len() <= budget && blobs_total(s.take(k)) >= e.1.len() && forall|j: int|
                0 <= j < k ==> blobs_total(#[trigger] s.take(j)) < e.1.len(),
{
    lemma_without_absent_key(s, e.0);
    let size = e.1.len();
    lemma_covering_prefix(s, size, 0);
    match covering_prefix(s, size, 0) {
        Some(k) => {
            lemma_total_split(s, k as int);
            assert(put_result(s, e, budget) == s.skip(k as int).push(e));
        },
        None => {},
    }
}

/// The default byte budget of a thumbnail store.
pub const MAX_CACHE_SIZE: usize = 100000000;

/// An in-memory cache of thumbnail bytes keyed by content URL, holding at
/// most a fixed number of bytes and evicting the oldest insertions first.
pub struct ThumbnailStore {
    map: BlobMap,
    total: usize,
    budget: usize,
}

impl ThumbnailStore {
    /// The cached entries, oldest insertion first.
    pub closed spec fn entries(&self) -> Seq<CacheEntry> {
        blob_entries(self.map)
    }

    /// The number of bytes the store may hold.
    pub closed spec fn budget(&self) -> nat {
        self.budget as nat
    }

    /// The running byte count matches the entries and stays within budget.
    pub closed spec fn wf(&self) -> bool {
        &&& self.total == blobs_total(blob_entries(self.map))
        &&& self.total <= self.budget
        &&& keys_unique(blob_entries(self.map))
    }

    /// An empty store with the default budget.
    pub fn new() -> (r: ThumbnailStore)
        ensures
            r.wf(),
            r.entries() == Seq::<CacheEntry>::empty(),
            r.budget() == MAX_CACHE_SIZE,
    {
        ThumbnailStore::with_budget(MAX_CACHE_SIZE)
    }

    /// An empty store that holds at most `budget` bytes.
    pub fn with_budget(budget: usize) -> (r: ThumbnailStore)
        ensures
            r.wf(),
            r.entries() == Seq::<CacheEntry>::empty(),
            r.budget() == budget,
    {
        ThumbnailStore { map: blob_map_new(), total: 0, budget }
    }

    /// The number of bytes held.
    pub fn total_size(&self) -> (r: usize)
        requires
            self.wf(),
        ensures
            r == blobs_total(self.entries()),
    {
        self.total
    }

    /// Caches `thumbnail` under `thumbnail_url`, evicting the oldest entries
    /// where the budget asks for it, or drops it where it cannot fit.
    pub fn put_thumbnail(&mut self, thumbnail_url: ContentUrl, thumbnail: Vec<u8>)
        requires
            old(self).wf(),
        ensures
            final(self).wf(),
            final(self).budget() == old(self).budget(),
            final(self).entries() == put_result(
                old(self).entries(),
                (url_key(thumbnail_url), thumbnail@),
                old(self).budget(),
            ),
    {
        let key = (thumbnail_url.authority, thumbnail_url.path);
        let ghost e: CacheEntry = (key_view(key), thumbnail@);
        let ghost s = blob_entries(self.map);
        let old_size: usize = match blob_map_get(&self.map, &key) {
            Some(v) => v.len(),
            None => 0,
        };
        blob_map_shift_remove(&mut self.map, &key);
        let ghost base = blob_entries(self.map);
        proof {
            lemma_total_without_key(s, e.0);
            lemma_lookup_without_key(s, e.0, e.0);
            lemma_without_key_unique(s, e.0);
        }
        self.total = self.total - old_size;
        let size = thumbnail.len();
        if size > self.budget {
            return;
        }
        if self.total <= self.budget - size {
            proof {
                lemma_total_push(base, e);
                assert(base.push(e).drop_last() =~= base);
            }
            blob_map_insert(&mut self.map, key, thumbnail);
            self.total = self.total + size;
            return;
        }
        let len = blob_map_len(&self.map);
        let mut k: usize = 0;
        let mut freed: usize = 0;
        assert(base.take(0) =~= Seq::<CacheEntry>::empty());
        while freed < size && k < len
            invariant
                len == base.len(),
                base == blob_entries(self.map),
                k <= len,
                freed == blobs_total(base.take(k as int)),
                freed <= blobs_total(base),
                blobs_total(base) == self.total,
                self.total <= self.budget,
                self.budget == old(self).budget,
                keys_unique(base),
                lookup(base, e.0) is None,
                covering_prefix(base, size as nat, 0) == covering_prefix(base, size as nat, k as nat),
            decreases len - k,
        {
            let v = blob_map_value_at(&self.map, k);
            let n = match v {
                Some(v) => v.len(),
                None => 0,
            };
            proof {
                lemma_total_take_step(base, k as int);
                lemma_total_split(base, k + 1);
            }
            freed = freed + n;
            k = k + 1;
        }
        if freed < size {
            return;
        }
        proof {
            lemma_total_split(base, k as int);
        }
        let mut i: usize = 0;
        assert(base.skip(0) =~= base);
        while i < k
            invariant
                i <= k <= len,
                len == base.len(),
                keys_unique(base),
                lookup(base, e.0) is None,
                blob_entries(self.map) == base.skip(i as int),
                self.total == blobs_total(base),
                self.total <= self.budget,
                self.budget == old(self).budget,
                freed == blobs_total(base.take(k as int)),
                freed >= size,
                size <= self.budget,
                self.total + size > self.budget,
                blobs_total(base) == blobs_total(base.take(k as int)) + blobs_total(base.skip(k as int)),
            decreases k - i,
        {
            blob_map_shift_remove_index(&mut self.map, 0);
            assert(base.skip(i as int).remove(0) =~= base.skip(i + 1));
            i = i + 1;
        }
        proof {
            lemma_lookup_none(base, e.0);
            lemma_lookup_none(base.skip(k as int), e.0);
            assert forall|j: int| 0 <= j < base.skip(k as int).len() implies base.skip(
                k as int,
            )[j].0 != e.0 by {
                assert(base.skip(k as int)[j] == base[j + k]);
            }
            lemma_total_push(base.skip(k as int), e);
            lemma_skip_unique(base, k as int);
            assert(base.skip(k as int).push(e).drop_last() =~= base.skip(k as int));
        }
        blob_map_insert(&mut self.map, key, thumbnail);
        self.total = self.total - freed + size;
    }

    /// Whether bytes are cached under `thumbnail_url`.
    pub fn has_thumbnail(&self, thumbnail_url: &ContentUrl) -> (r: bool)
        ensures
            r == lookup(self.entries(), url_key(*thumbnail_url)) is Some,
    {
        self.get_thumbnail(thumbnail_url).is_some()
    }

    /// The bytes cached under `thumbnail_url`.
    pub fn get_thumbnail(&self, thumbnail_url: &ContentUrl) -> (r: Option<&Vec<u8>>)
        ensures
            match r {
                Some(v) => lookup(self.entries(), url_key(*thumbnail_url)) == Some(v@),
                None => lookup(self.entries(), url_key(*thumbnail_url)) is None,
            },
    {
        let key = url_key_of(thumbnail_url);
        blob_map_get(&self.map, &key)
    }

    /// Drops whatever is cached under `thumbnail_url`.
    pub fn invalidate_thumbnail(&mut self, thumbnail_url: &ContentUrl)
        requires
            old(self).wf(),
        ensures
            final(self).wf(),
            final(self).budget() == old(self).budget(),
            final(self).entries() == without_key(old(self).entries(), url_key(*thumbnail_url)),
    {
        let key = url_key_of(thumbnail_url);
        let ghost s = blob_entries(self.map);
        let old_size: usize = match blob_map_get(&self.map, &key) {
            Some(v) => v.len(),
            None => 0,
        };
        blob_map_shift_remove(&mut self.map, &key);
        proof {
            lemma_total_without_key(s, key_view(key));
            lemma_without_key_unique(s, key_view(key));
        }
        self.total = self.total - old_size;
    }
}

fn url_key_of(url: &ContentUrl) -> (r: (Option<String>, String))
    ensures
        key_view(r) == url_key(*url),
{
    let authority = match &url.authority {
        Some(a) => Some(a.clone()),
        None => None,
    };
    (authority, url.path.clone())
}

} // verus!
