//! The post index: parsing candidate files into posts, building the
//! immutable sorted index, and resolving navigation queries.
//!
//! Posts are ordered by publication date, newest first; posts sharing a
//! date keep their discovery order. Index construction fails fast when two
//! posts share a slug.

use vstd::prelude::*;
use vstd::string::StrSliceExecFns;
use crate::dates::{
    date_prefix_timestamp, load_time_now, parse_date_prefix, valid_timestamp, format_timestamp,
    human_date_of,
};
use crate::slug::{extract_slug_from_filename, stem_slug, str_eq};

verus! {

/// A single content item of the blog.
pub struct Post {
    /// Unique, URL-safe identifier.
    pub slug: String,
    /// Raw markdown text.
    pub body: String,
    /// Seconds since the Unix epoch: midnight UTC of the filename date, or
    /// the load-time clock when the filename carries no date.
    pub published_at: i64,
}

/// The mathematical value of a [`Post`].
pub ghost struct PostView {
    pub slug: Seq<char>,
    pub body: Seq<char>,
    pub published_at: int,
}

impl View for Post {
    type V = PostView;

    open spec fn view(&self) -> PostView {
        PostView { slug: self.slug@, body: self.body@, published_at: self.published_at as int }
    }
}

impl Post {
    /// The publication date as text, e.g. "January 02, 2024".
    pub fn human_date(&self) -> (r: String)
        requires
            valid_timestamp(self.published_at as int),
        ensures
            r@ == human_date_of(self.published_at as int),
    {
        format_timestamp(self.published_at)
    }
}

/// A candidate file handed to the index builder: a bare filename and the
/// raw bytes found under it.
pub struct SourceFile {
    pub name: String,
    pub bytes: Vec<u8>,
}

/// What `String::from_utf8` decodes the bytes to, or `None` where they are
/// not valid UTF-8.
pub uninterp spec fn utf8_of(bytes: Seq<u8>) -> Option<Seq<char>>;

/// Every byte is plain ASCII.
pub open spec fn all_ascii(bytes: Seq<u8>) -> bool {
    forall|i: int| 0 <= i < bytes.len() ==> bytes[i] < 128
}

/// ASCII bytes read as characters.
pub open spec fn ascii_chars(bytes: Seq<u8>) -> Seq<char> {
    bytes.map_values(|b: u8| b as char)
}

/// Relies on String::from_utf8: decodes the bytes, failing exactly on
/// invalid UTF-8; pure ASCII input always decodes, each byte to its own
/// character.
#[verifier::external_body]
fn decode_utf8(bytes: &Vec<u8>) -> (r: Option<String>)
    ensures
        r is Some <==> utf8_of(bytes@) is Some,
        r matches Some(s) ==> utf8_of(bytes@) == Some(s@),
        r is Some <== all_ascii(bytes@),
        r matches Some(s) ==> (all_ascii(bytes@) ==> s@ == ascii_chars(bytes@)),
{
    String::from_utf8(bytes.clone()).ok()
}

/// A file body as post text: the decoded characters, or empty where the
/// bytes are not valid UTF-8 (a deliberate coercion rather than a skip).
pub open spec fn body_text(bytes: Seq<u8>) -> Seq<char> {
    match utf8_of(bytes) {
        Some(t) => t,
        None => Seq::empty(),
    }
}

/// Only filenames with extension `md` are candidates.
pub open spec fn is_md_name(name: Seq<char>) -> bool {
    name.len() > 3 && name[name.len() - 3] == '.' && name[name.len() - 2] == 'm' && name[name.len()
        - 1] == 'd'
}

/// The filename without its `.md` extension.
pub open spec fn stem_of(name: Seq<char>) -> Seq<char> {
    name.take(name.len() - 3)
}

/// The post a candidate file parses to, given the load-time clock reading.
pub open spec fn post_of(f: SourceFile, load_time: int) -> PostView {
    PostView {
        slug: stem_slug(stem_of(f.name@)),
        body: body_text(f.bytes@),
        published_at: match date_prefix_timestamp(stem_of(f.name@)) {
            Some(t) => t,
            None => load_time,
        },
    }
}

/// The posts parsed from a file listing, in discovery order; files whose
/// extension is not `md` are ignored.
pub open spec fn parsed_posts(files: Seq<SourceFile>, load_time: int) -> Seq<PostView>
    decreases files.len(),
{
    if files.len() == 0 {
        Seq::empty()
    } else {
        parsed_posts(files.drop_last(), load_time) + if is_md_name(files.last().name@) {
            seq![post_of(files.last(), load_time)]
        } else {
            Seq::empty()
        }
    }
}

/// Insertion into a list sorted by date descending: the new post goes
/// after every post at least as new, so that equal dates keep insertion
/// order.
pub open spec fn insert_by_date(s: Seq<PostView>, p: PostView) -> Seq<PostView>
    decreases s.len(),
{
    if s.len() == 0 {
        seq![p]
    } else if s.first().published_at >= p.published_at {
        seq![s.first()] + insert_by_date(s.drop_first(), p)
    } else {
        seq![p] + s
    }
}

/// The index order of a discovery-ordered post listing: date descending,
/// discovery order breaking ties (a stable insertion sort).
pub open spec fn index_order(s: Seq<PostView>) -> Seq<PostView>
    decreases s.len(),
{
    if s.len() == 0 {
        Seq::empty()
    } else {
        insert_by_date(index_order(s.drop_last()), s.last())
    }
}

/// Newest first: publication dates never increase along the sequence.
pub open spec fn sorted_by_date_desc(s: Seq<PostView>) -> bool {
    forall|i: int, j: int| 0 <= i <= j < s.len() ==> s[i].published_at >= s[j].published_at
}

/// No two posts share a slug.
pub open spec fn distinct_slugs(s: Seq<PostView>) -> bool {
    forall|i: int, j: int| 0 <= i < j < s.len() ==> s[i].slug != s[j].slug
}

/// The views of a sequence of posts.
pub open spec fn views(s: Seq<Post>) -> Seq<PostView> {
    s.map_values(|p: Post| p@)
}

/// Construction failures of the index.
pub enum BuildError {
    /// Two posts resolved to the same slug; the offending slug is carried.
    DuplicateSlug(String),
}

/// The immutable, sorted collection of all posts. Built exactly once;
/// reads never mutate it.
pub struct PostIndex {
    pub posts: Vec<Post>,
}

impl View for PostIndex {
    type V = Seq<PostView>;

    open spec fn view(&self) -> Seq<PostView> {
        views(self.posts@)
    }
}

impl PostIndex {
    /// Well-formedness: sorted newest first, slugs unique, timestamps in
    /// the representable range.
    pub open spec fn wf(&self) -> bool {
        &&& sorted_by_date_desc(self@)
        &&& distinct_slugs(self@)
        &&& forall|i: int| 0 <= i < self@.len() ==> valid_timestamp(self@[i].published_at)
    }

    /// Number of posts in the index.
    pub fn len(&self) -> (n: usize)
        ensures
            n == self@.len(),
    {
        self.posts.len()
    }

    /// The post at ordinal `n`, or `None` when `n` is out of range.
    pub fn get_post(&self, n: usize) -> (r: Option<&Post>)
        ensures
            match r {
                Some(p) => n < self@.len() && p@ == self@[n as int],
                None => n >= self@.len(),
            },
    {
        if n < self.posts.len() {
            Some(&self.posts[n])
        } else {
            None
        }
    }

    /// The position of the first post carrying `slug`, or `None` when no
    /// post does.
    pub fn position_of_slug(&self, slug: &str) -> (r: Option<usize>)
        ensures
            match r {
                Some(i) => slug_lookup(self@, slug@) == Some(i as int),
                None => slug_lookup(self@, slug@) is None,
            },
    {
        let n = self.posts.len();
        let mut i: usize = 0;
        while i < n
            invariant
                n == self@.len(),
                i <= n,
                slug_prefix_misses(self@, slug@, i as int),
            decreases n - i,
        {
            if str_eq(self.posts[i].slug.as_str(), slug) {
                proof {
                    lemma_slug_lookup_hit(self@, slug@, i as int);
                }
                return Some(i);
            }
            i = i + 1;
        }
        proof {
            lemma_slug_lookup_miss(self@, slug@);
        }
        None
    }

    /// The post carrying `slug` and its position, or `None` when the slug
    /// is unknown.
    pub fn get_post_by_slug(&self, slug: &str) -> (r: Option<(&Post, usize)>)
        ensures
            match r {
                Some((p, i)) => {
                    &&& slug_lookup(self@, slug@) == Some(i as int)
                    &&& i < self@.len()
                    &&& p@ == self@[i as int]
                    &&& p@.slug == slug@
                },
                None => slug_lookup(self@, slug@) is None,
            },
    {
        proof {
            lemma_slug_lookup_in_range(self@, slug@);
        }
        match self.position_of_slug(slug) {
            Some(i) => Some((&self.posts[i], i)),
            None => None,
        }
    }

    /// The slugs of the neighbors of position `current_index`: the
    /// previous (newer) post and the next (older) post, where they exist.
    pub fn get_adjacent_post_slugs(&self, current_index: usize) -> (r: (
        Option<String>,
        Option<String>,
    ))
        ensures
            match r.0 {
                Some(s) => 0 < current_index && current_index - 1 < self@.len() && s@ == self@[
                    current_index - 1
                ].slug,
                None => current_index == 0 || current_index - 1 >= self@.len(),
            },
            match r.1 {
                Some(s) => current_index + 1 < self@.len() && s@ == self@[
                    current_index + 1
                ].slug,
                None => current_index + 1 >= self@.len(),
            },
    {
        let n = self.posts.len();
        let prev = if current_index > 0 && current_index - 1 < n {
            Some(self.posts[current_index - 1].slug.clone())
        } else {
            None
        };
        let next = if n > 0 && current_index < n - 1 {
            Some(self.posts[current_index + 1].slug.clone())
        } else {
            None
        };
        (prev, next)
    }
}

/// Candidate check on a filename.
fn is_markdown_file(name: &str) -> (b: bool)
    ensures
        b == is_md_name(name@),
{
    let n = name.unicode_len();
    n > 3 && name.get_char(n - 3) == '.' && name.get_char(n - 2) == 'm' && name.get_char(n - 1)
        == 'd'
}

/// Parses the candidate files into posts, in discovery order.
fn parse_files(files: &Vec<SourceFile>, load_time: i64) -> (r: Vec<Post>)
    requires
        valid_timestamp(load_time as int),
    ensures
        views(r@) == parsed_posts(files@, load_time as int),
        forall|i: int| 0 <= i < r@.len() ==> valid_timestamp(#[trigger] r@[i]@.published_at),
{
    let mut items: Vec<Post> = Vec::new();
    let mut k: usize = 0;
    while k < files.len()
        invariant
            valid_timestamp(load_time as int),
            k <= files@.len(),
            views(items@) == parsed_posts(files@.take(k as int), load_time as int),
            forall|i: int| 0 <= i < items@.len() ==> valid_timestamp(
                #[trigger] items@[i]@.published_at,
            ),
        decreases files@.len() - k,
    {
        let f = &files[k];
        proof {
            assert(files@.take(k + 1).drop_last() =~= files@.take(k as int));
            assert(files@.take(k + 1).last() == files@[k as int]);
        }
        let name_str = f.name.as_str();
        if is_markdown_file(name_str) {
            let n = name_str.unicode_len();
            let stem = name_str.substring_char(0, n - 3);
            let slug = extract_slug_from_filename(stem);
            let body = match decode_utf8(&f.bytes) {
                Some(s) => s,
                None => String::new(),
            };
            let published_at = match parse_date_prefix(stem) {
                Some(t) => t,
                None => load_time,
            };
            let ghost pre = views(items@);
            items.push(Post { slug, body, published_at });
            proof {
                assert(views(items@) =~= pre.push(items@.last()@));
                assert(items@.last()@ == post_of(files@[k as int], load_time as int));
                assert(views(items@) =~= parsed_posts(files@.take(k + 1), load_time as int));
            }
        } else {
            proof {
                assert(parsed_posts(files@.take(k + 1), load_time as int) =~= parsed_posts(
                    files@.take(k as int),
                    load_time as int,
                ));
            }
        }
        k = k + 1;
    }
    proof {
        assert(files@.take(files@.len() as int) =~= files@);
    }
    items
}

/// Where `insert_by_date` puts the new post: right before the first
/// strictly older entry.
proof fn lemma_insert_by_date_at(s: Seq<PostView>, p: PostView, j: int)
    requires
        0 <= j <= s.len(),
        forall|a: int| 0 <= a < j ==> s[a].published_at >= p.published_at,
        j < s.len() ==> s[j].published_at < p.published_at,
    ensures
        insert_by_date(s, p) =~= s.take(j) + seq![p] + s.skip(j),
    decreases j,
{
    if j == 0 {
        if s.len() == 0 {
            assert(insert_by_date(s, p) =~= s.take(0) + seq![p] + s.skip(0));
        } else {
            assert(s.first() == s[0]);
            assert(insert_by_date(s, p) =~= s.take(0) + seq![p] + s.skip(0));
        }
    } else {
        assert(s.first() == s[0]);
        let t = s.drop_first();
        assert forall|a: int| 0 <= a < j - 1 implies t[a].published_at >= p.published_at by {
            assert(t[a] == s[a + 1]);
        }
        assert(j - 1 < t.len() ==> t[j - 1] == s[j]);
        lemma_insert_by_date_at(t, p, j - 1);
        assert(insert_by_date(s, p) =~= s.take(j) + seq![p] + s.skip(j));
    }
}

/// Sorts the parsed posts into index order: date descending, discovery
/// order breaking ties.
fn sort_posts(items: Vec<Post>) -> (r: Vec<Post>)
    requires
        forall|i: int| 0 <= i < items@.len() ==> valid_timestamp(
            #[trigger] items@[i]@.published_at,
        ),
    ensures
        views(r@) == index_order(views(items@)),
        sorted_by_date_desc(views(r@)),
        forall|i: int| 0 <= i < r@.len() ==> valid_timestamp(#[trigger] r@[i]@.published_at),
{
    let ghost orig = items@;
    let mut rest = items;
    let mut out: Vec<Post> = Vec::new();
    while rest.len() > 0
        invariant
            rest@.len() <= orig.len(),
            rest@ == orig.skip(orig.len() - rest@.len()),
            views(out@) == index_order(views(orig.take(orig.len() - rest@.len()))),
            sorted_by_date_desc(views(out@)),
            forall|i: int| 0 <= i < orig.len() ==> valid_timestamp(
                #[trigger] orig[i]@.published_at,
            ),
            forall|i: int| 0 <= i < out@.len() ==> valid_timestamp(
                #[trigger] out@[i]@.published_at,
            ),
        decreases rest@.len(),
    {
        let ghost pre_rest = rest@;
        let ghost m = orig.len() - rest@.len();
        let p = rest.remove(0);
        proof {
            assert(0 <= m < orig.len());
            assert(orig.skip(m as int)[0] == orig[m as int]);
            assert(p == orig[m as int]);
            assert(rest@ =~= orig.skip(m + 1));
        }
        let mut j: usize = 0;
        while j < out.len() && out[j].published_at >= p.published_at
            invariant
                j <= out@.len(),
                forall|a: int| 0 <= a < j ==> views(out@)[a].published_at
                    >= p@.published_at,
            decreases out@.len() - j,
        {
            j = j + 1;
        }
        let ghost pre = views(out@);
        proof {
            lemma_insert_by_date_at(pre, p@, j as int);
        }
        out.insert(j, p);
        proof {
            assert(views(out@) =~= pre.insert(j as int, p@));
            assert(views(out@) =~= pre.take(j as int) + seq![p@] + pre.skip(j as int));
            assert(views(out@) =~= insert_by_date(pre, p@));
            assert(views(orig.take(m + 1)).len() == m + 1);
            assert(views(orig.take(m + 1)).drop_last() =~= views(orig.take(m as int)));
            assert(views(orig.take(m + 1)).last() == orig[m as int]@);
            assert(views(out@) =~= index_order(views(orig.take(m + 1))));
        }
    }
    proof {
        assert(orig.take(orig.len() as int) =~= orig);
    }
    out
}

proof fn lemma_insert_by_date_multiset(s: Seq<PostView>, p: PostView)
    ensures
        insert_by_date(s, p).to_multiset() == s.to_multiset().insert(p),
    decreases s.len(),
{
    broadcast use vstd::seq_lib::group_to_multiset_ensures;

    if s.len() == 0 {
        assert(insert_by_date(s, p) =~= s.push(p));
    } else if s.first().published_at >= p.published_at {
        lemma_insert_by_date_multiset(s.drop_first(), p);
        vstd::seq_lib::lemma_multiset_commutative(seq![s.first()], insert_by_date(
            s.drop_first(),
            p,
        ));
        vstd::seq_lib::lemma_multiset_commutative(seq![s.first()], s.drop_first());
        assert(seq![s.first()] + s.drop_first() =~= s);
        assert(seq![s.first()].to_multiset().add(s.drop_first().to_multiset().insert(p))
            =~= (seq![s.first()].to_multiset().add(s.drop_first().to_multiset())).insert(p));
    } else {
        vstd::seq_lib::lemma_multiset_commutative(seq![p], s);
        assert(seq![p] =~= Seq::<PostView>::empty().push(p));
        assert(seq![p].to_multiset().add(s.to_multiset()) =~= s.to_multiset().insert(p));
    }
}

/// The sorted index holds exactly the parsed posts: sorting permutes and
/// neither drops nor invents an entry.
pub proof fn lemma_index_order_permutes(s: Seq<PostView>)
    ensures
        index_order(s).to_multiset() == s.to_multiset(),
    decreases s.len(),
{
    broadcast use vstd::seq_lib::group_to_multiset_ensures;

    if s.len() > 0 {
        lemma_index_order_permutes(s.drop_last());
        lemma_insert_by_date_multiset(index_order(s.drop_last()), s.last());
        assert(s =~= s.drop_last().push(s.last()));
    }
}

/// Two posts in `s` carry the slug `sl`.
pub open spec fn has_duplicate_slug(s: Seq<PostView>, sl: Seq<char>) -> bool {
    exists|i: int, j: int| 0 <= i < j < s.len() && s[i].slug == sl && s[j].slug == sl
}

/// Finds a slug carried by two posts, if any.
fn find_duplicate_slug(posts: &Vec<Post>) -> (r: Option<String>)
    ensures
        r matches Some(s) ==> has_duplicate_slug(views(posts@), s@),
        r is None ==> distinct_slugs(views(posts@)),
{
    let n = posts.len();
    let mut i: usize = 0;
    while i < n
        invariant
            n == posts@.len(),
            i <= n,
            forall|a: int, b: int| 0 <= a < b < n && a < i ==> views(posts@)[a].slug != views(
                posts@,
            )[b].slug,
        decreases n - i,
    {
        let mut j: usize = i + 1;
        while j < n
            invariant
                n == posts@.len(),
                i < j <= n,
                forall|b: int| i < b < j ==> views(posts@)[i as int].slug != views(posts@)[b].slug,
            decreases n - j,
        {
            if posts[i].slug == posts[j].slug {
                let s = posts[i].slug.clone();
                proof {
                    assert(views(posts@)[i as int].slug == s@);
                    assert(views(posts@)[j as int].slug == s@);
                    assert(has_duplicate_slug(views(posts@), s@));
                }
                return Some(s);
            }
            j = j + 1;
        }
        i = i + 1;
    }
    None
}

/// Builds the index from the candidate files: parse, sort newest first
/// with discovery order breaking ties, and fail fast on a duplicate slug.
pub fn build_index(files: Vec<SourceFile>, load_time: i64) -> (r: Result<PostIndex, BuildError>)
    requires
        valid_timestamp(load_time as int),
    ensures
        r matches Ok(ix) ==> ix@ == index_order(parsed_posts(files@, load_time as int))
            && ix.wf(),
        r is Ok <==> distinct_slugs(index_order(parsed_posts(files@, load_time as int))),
        r matches Err(BuildError::DuplicateSlug(s)) ==> has_duplicate_slug(
            index_order(parsed_posts(files@, load_time as int)),
            s@,
        ),
{
    let parsed = parse_files(&files, load_time);
    let sorted = sort_posts(parsed);
    match find_duplicate_slug(&sorted) {
        Some(s) => Err(BuildError::DuplicateSlug(s)),
        None => Ok(PostIndex { posts: sorted }),
    }
}

/// Builds the index with the load-time clock as the default publication
/// instant for undated filenames.
pub fn build_index_now(files: Vec<SourceFile>) -> (r: Result<PostIndex, BuildError>)
    ensures
        r matches Ok(ix) ==> ix.wf() && (exists|lt: int|
            valid_timestamp(lt) && ix@ == index_order(parsed_posts(files@, lt))),
        r matches Err(BuildError::DuplicateSlug(s)) ==> (exists|lt: int|
            valid_timestamp(lt) && has_duplicate_slug(
                index_order(parsed_posts(files@, lt)),
                s@,
            )),
{
    let load_time = load_time_now();
    let r = build_index(files, load_time);
    proof {
        assert(valid_timestamp(load_time as int));
    }
    r
}

/// Position of the first post carrying `sl`, if any.
pub open spec fn slug_lookup(s: Seq<PostView>, sl: Seq<char>) -> Option<int>
    decreases s.len(),
{
    if s.len() == 0 {
        None
    } else if s.first().slug == sl {
        Some(0)
    } else {
        match slug_lookup(s.drop_first(), sl) {
            Some(j) => Some(j + 1),
            None => None,
        }
    }
}

/// No post among the first `k` carries `sl`.
pub open spec fn slug_prefix_misses(s: Seq<PostView>, sl: Seq<char>, k: int) -> bool {
    forall|a: int| 0 <= a < k ==> s[a].slug != sl
}

proof fn lemma_slug_lookup_hit(s: Seq<PostView>, sl: Seq<char>, i: int)
    requires
        0 <= i < s.len(),
        s[i].slug == sl,
        slug_prefix_misses(s, sl, i),
    ensures
        slug_lookup(s, sl) == Some(i),
    decreases i,
{
    if i == 0 {
        assert(s.first() == s[0]);
    } else {
        assert(s.first().slug != sl);
        assert(s.drop_first()[i - 1] == s[i]);
        assert forall|a: int| 0 <= a < i - 1 implies s.drop_first()[a].slug != sl by {
            assert(s.drop_first()[a] == s[a + 1]);
        }
        lemma_slug_lookup_hit(s.drop_first(), sl, i - 1);
    }
}

proof fn lemma_slug_lookup_miss(s: Seq<PostView>, sl: Seq<char>)
    requires
        slug_prefix_misses(s, sl, s.len() as int),
    ensures
        slug_lookup(s, sl) is None,
    decreases s.len(),
{
    if s.len() > 0 {
        assert(s.first() == s[0]);
        assert forall|a: int| 0 <= a < s.drop_first().len() implies s.drop_first()[a].slug != sl by {
            assert(s.drop_first()[a] == s[a + 1]);
        }
        lemma_slug_lookup_miss(s.drop_first(), sl);
    }
}

/// A successful slug lookup lands inside the sequence.
pub proof fn lemma_slug_lookup_in_range(s: Seq<PostView>, sl: Seq<char>)
    ensures
        match slug_lookup(s, sl) {
            Some(i) => 0 <= i < s.len() && s[i].slug == sl,
            None => slug_prefix_misses(s, sl, s.len() as int),
        },
    decreases s.len(),
{
    if s.len() > 0 {
        lemma_slug_lookup_in_range(s.drop_first(), sl);
        assert(s.first() == s[0]);
        if s.first().slug != sl {
            match slug_lookup(s.drop_first(), sl) {
                Some(j) => {
                    assert(s[j + 1] == s.drop_first()[j]);
                },
                None => {
                    assert forall|a: int| 0 <= a < s.len() implies s[a].slug != sl by {
                        if a == 0 {
                            assert(s[0] == s.first());
                        } else {
                            assert(s.drop_first()[a - 1] == s[a]);
                        }
                    }
                },
            }
        }
    }
}

/// Ordinal and slug addressing agree: looking up the slug of the post at
/// any valid position finds exactly that position.
pub proof fn lemma_slug_position_roundtrip(s: Seq<PostView>, i: int)
    requires
        distinct_slugs(s),
        0 <= i < s.len(),
    ensures
        slug_lookup(s, s[i].slug) == Some(i),
    decreases i,
{
    assert forall|a: int| 0 <= a < i implies s[a].slug != s[i].slug by {}
    lemma_slug_lookup_hit(s, s[i].slug, i);
}

/// In a well-formed index a strictly newer post stands strictly earlier.
pub proof fn lemma_newer_posts_first(s: Seq<PostView>, i: int, j: int)
    requires
        sorted_by_date_desc(s),
        0 <= i < s.len(),
        0 <= j < s.len(),
        s[i].published_at > s[j].published_at,
    ensures
        i < j,
{
}

/// The slug of the newer neighbor of position `i`, where one exists.
pub open spec fn spec_prev_slug(s: Seq<PostView>, i: int) -> Option<Seq<char>> {
    if 0 < i && i - 1 < s.len() {
        Some(s[i - 1].slug)
    } else {
        None
    }
}

/// The slug of the older neighbor of position `i`, where one exists.
pub open spec fn spec_next_slug(s: Seq<PostView>, i: int) -> Option<Seq<char>> {
    if i + 1 < s.len() {
        Some(s[i + 1].slug)
    } else {
        None
    }
}

/// The first post has no previous neighbor, the last none next; an
/// interior post has both, carrying the slugs of its direct neighbors.
pub proof fn lemma_adjacency_edges(s: Seq<PostView>, k: int)
    requires
        0 <= k < s.len(),
    ensures
        spec_prev_slug(s, 0) is None,
        spec_next_slug(s, s.len() - 1) is None,
        0 < k < s.len() - 1 ==> spec_prev_slug(s, k) == Some(s[k - 1].slug) && spec_next_slug(
            s,
            k,
        ) == Some(s[k + 1].slug),
{
}

} // verus!
