//! Domain models and value objects.
//!
//! Confidence scores are carried as integer hundredths (85 stands for 0.85),
//! and timestamps as Unix seconds, so that every rule about them is a fact
//! about integers. Each model type has a mathematical view over which all
//! contracts are stated.

use vstd::prelude::*;

use crate::strutil::{lemma_seq_le_antisymmetric, lemma_seq_le_total, lemma_seq_le_transitive,
    seq_le, str_le};
use sha2::Digest;
use vstd::multiset::Multiset;
use vstd::seq_lib::lemma_multiset_commutative;
use vstd::string::StringExecFns;

verus! {

/// A source post from a watched platform.
pub struct SourcePost {
    /// Platform-specific post ID.
    pub id: String,
    /// Post text content.
    pub text: String,
    /// Author username/handle.
    pub author: String,
    /// URL to the original post.
    pub url: String,
    /// When the post was created, as Unix seconds.
    pub created_at: i64,
    /// Whether this is a repost/retweet.
    pub is_repost: bool,
    /// Whether this is a reply.
    pub is_reply: bool,
    /// ID of the post being replied to, if any.
    pub reply_to_id: Option<String>,
}

/// The mathematical content of a `SourcePost`.
pub ghost struct PostView {
    pub id: Seq<char>,
    pub text: Seq<char>,
    pub author: Seq<char>,
    pub url: Seq<char>,
    pub created_at: int,
    pub is_repost: bool,
    pub is_reply: bool,
    pub reply_to_id: Option<Seq<char>>,
}

impl View for SourcePost {
    type V = PostView;

    open spec fn view(&self) -> PostView {
        PostView {
            id: self.id@,
            text: self.text@,
            author: self.author@,
            url: self.url@,
            created_at: self.created_at as int,
            is_repost: self.is_repost,
            is_reply: self.is_reply,
            reply_to_id: self.reply_to_id.deep_view(),
        }
    }
}

impl DeepView for SourcePost {
    type V = PostView;

    open spec fn deep_view(&self) -> PostView {
        self.view()
    }
}

impl SourcePost {
    /// A field-for-field copy of the post.
    pub fn duplicate(&self) -> (r: SourcePost)
        ensures
            r@ == self@,
    {
        SourcePost {
            id: self.id.clone(),
            text: self.text.clone(),
            author: self.author.clone(),
            url: self.url.clone(),
            created_at: self.created_at,
            is_repost: self.is_repost,
            is_reply: self.is_reply,
            reply_to_id: clone_opt_string(&self.reply_to_id),
        }
    }
}

/// A user-defined narrative tag definition loaded from markdown.
pub struct TagDefinition {
    /// Unique identifier (from filename or frontmatter).
    pub id: String,
    /// Human-readable title.
    pub title: String,
    /// Optional aliases for the tag.
    pub aliases: Vec<String>,
    /// Short description (from frontmatter).
    pub short: Option<String>,
    /// Full markdown content.
    pub content: String,
    /// Source file path.
    pub file_path: String,
}

/// The mathematical content of a `TagDefinition`.
pub ghost struct DefView {
    pub id: Seq<char>,
    pub title: Seq<char>,
    pub aliases: Seq<Seq<char>>,
    pub short: Option<Seq<char>>,
    pub content: Seq<char>,
    pub file_path: Seq<char>,
}

impl View for TagDefinition {
    type V = DefView;

    open spec fn view(&self) -> DefView {
        DefView {
            id: self.id@,
            title: self.title@,
            aliases: self.aliases.deep_view(),
            short: self.short.deep_view(),
            content: self.content@,
            file_path: self.file_path@,
        }
    }
}

impl DeepView for TagDefinition {
    type V = DefView;

    open spec fn deep_view(&self) -> DefView {
        self.view()
    }
}

impl TagDefinition {
    /// A field-for-field copy of the definition.
    pub fn duplicate(&self) -> (r: TagDefinition)
        ensures
            r@ == self@,
    {
        let r = TagDefinition {
            id: self.id.clone(),
            title: self.title.clone(),
            aliases: clone_strings(&self.aliases),
            short: clone_opt_string(&self.short),
            content: self.content.clone(),
            file_path: self.file_path.clone(),
        };
        proof {
            assert(r.aliases.deep_view() =~= self.aliases.deep_view());
        }
        r
    }
}

/// A copy of a vector of strings with the same character content.
pub fn clone_strings(v: &Vec<String>) -> (r: Vec<String>)
    ensures
        r@ == v@,
{
    let mut out: Vec<String> = Vec::new();
    let n = v.len();
    let mut i: usize = 0;
    while i < n
        invariant
            n == v@.len(),
            i <= n,
            out@ =~= v@.subrange(0, i as int),
        decreases n - i,
    {
        out.push(v[i].clone());
        i = i + 1;
    }
    proof {
        assert(v@.subrange(0, n as int) =~= v@);
    }
    out
}

/// A copy of an optional string.
pub fn clone_opt_string(v: &Option<String>) -> (r: Option<String>)
    ensures
        r == *v,
{
    match v {
        Some(s) => Some(s.clone()),
        None => None,
    }
}

/// A copy of a vector of definitions with the same views.
pub fn clone_defs(v: &Vec<TagDefinition>) -> (r: Vec<TagDefinition>)
    ensures
        r.deep_view() == v.deep_view(),
{
    let mut out: Vec<TagDefinition> = Vec::new();
    let n = v.len();
    let mut i: usize = 0;
    while i < n
        invariant
            n == v@.len(),
            i <= n,
            out@.len() == i,
            out.deep_view() =~= v.deep_view().subrange(0, i as int),
        decreases n - i,
    {
        let ghost prev = out@;
        let ghost prev_dv = out.deep_view();
        let d = v[i].duplicate();
        out.push(d);
        proof {
            let dv = v.deep_view();
            assert(dv[i as int] == v@[i as int]@);
            assert forall|k: int| 0 <= k < i + 1 implies out.deep_view()[k] == dv.subrange(
                0,
                i as int + 1,
            )[k] by {
                assert(out.deep_view()[k] == out@[k]@);
                if k < i {
                    assert(out@[k] == prev[k]);
                    assert(prev_dv[k] == prev[k]@);
                    assert(prev_dv[k] == dv.subrange(0, i as int)[k]);
                } else {
                    assert(out@[k] == d);
                }
            }
            assert(out.deep_view() =~= dv.subrange(0, i as int + 1));
        }
        i = i + 1;
    }
    proof {
        assert(v.deep_view().subrange(0, n as int) =~= v.deep_view());
    }
    out
}

/// Definition views ordered by id, ascending.
pub open spec fn sorted_by_id(s: Seq<DefView>) -> bool {
    forall|i: int, j: int| 0 <= i < j < s.len() ==> seq_le(#[trigger] s[i].id, #[trigger] s[j].id)
}

/// No two definition views share an id.
pub open spec fn unique_ids(s: Seq<DefView>) -> bool {
    forall|i: int, j: int| 0 <= i < j < s.len() ==> #[trigger] s[i].id != #[trigger] s[j].id
}

/// The sequence that results from inserting `d` into `s` after every
/// definition whose id is less than or equal to `d`'s.
pub open spec fn insert_by_id(d: DefView, s: Seq<DefView>) -> Seq<DefView>
    decreases s.len(),
{
    if s.len() == 0 {
        seq![d]
    } else if seq_le(s[0].id, d.id) {
        seq![s[0]] + insert_by_id(d, s.drop_first())
    } else {
        seq![d] + s
    }
}

/// Stable insertion sort of definition views by id, ascending.
pub open spec fn sort_defs_spec(s: Seq<DefView>) -> Seq<DefView>
    decreases s.len(),
{
    if s.len() == 0 {
        Seq::empty()
    } else {
        insert_by_id(s.last(), sort_defs_spec(s.drop_last()))
    }
}

/// The canonical character stream that is fingerprinted: id, content and
/// file path of each definition, concatenated in order with no separators.
pub open spec fn canon_of(s: Seq<DefView>) -> Seq<char>
    decreases s.len(),
{
    if s.len() == 0 {
        Seq::empty()
    } else {
        canon_of(s.drop_last()) + s.last().id + s.last().content + s.last().file_path
    }
}

/// The hex SHA-256 fingerprint of a definition set: the definitions are
/// sorted by id and their canonical stream is hashed.
pub open spec fn taxonomy_hash_of(s: Seq<DefView>) -> Seq<char> {
    sha256_hex_of(canon_of(sort_defs_spec(s)))
}

/// The lowercase hex rendering of the SHA-256 digest of a character
/// sequence's UTF-8 bytes.
pub open spec fn sha256_hex_of(s: Seq<char>) -> Seq<char> {
    hex_of_bytes(sha256_of(s))
}

/// The SHA-256 digest (32 bytes) of the UTF-8 bytes of a character
/// sequence, as computed by the sha2 crate.
pub uninterp spec fn sha256_of(s: Seq<char>) -> Seq<u8>;

/// Relies on sha2::Sha256 (via the `Digest` trait) to hash the UTF-8 bytes
/// of the string: a 32-byte digest that is a pure function of the input.
#[verifier::external_body]
fn sha256_digest(s: &str) -> (r: Vec<u8>)
    ensures
        r@ == sha256_of(s@),
        r@.len() == 32,
{
    sha2::Sha256::digest(s.as_bytes()).to_vec()
}

/// The lowercase hex digit for a value below 16.
pub open spec fn hex_digit(d: u8) -> char {
    if d == 0 {
        '0'
    } else if d == 1 {
        '1'
    } else if d == 2 {
        '2'
    } else if d == 3 {
        '3'
    } else if d == 4 {
        '4'
    } else if d == 5 {
        '5'
    } else if d == 6 {
        '6'
    } else if d == 7 {
        '7'
    } else if d == 8 {
        '8'
    } else if d == 9 {
        '9'
    } else if d == 10 {
        'a'
    } else if d == 11 {
        'b'
    } else if d == 12 {
        'c'
    } else if d == 13 {
        'd'
    } else if d == 14 {
        'e'
    } else {
        'f'
    }
}

/// Two lowercase hex characters per byte, high nibble first.
pub open spec fn hex_of_bytes(b: Seq<u8>) -> Seq<char>
    decreases b.len(),
{
    if b.len() == 0 {
        Seq::empty()
    } else {
        hex_of_bytes(b.drop_last()) + seq![hex_digit(b.last() / 16), hex_digit(b.last() % 16)]
    }
}

/// Executable lowercase hex digit for a value below 16.
fn hex_digit_char(d: u8) -> (r: char)
    requires
        d < 16,
    ensures
        r == hex_digit(d),
{
    if d == 0 {
        '0'
    } else if d == 1 {
        '1'
    } else if d == 2 {
        '2'
    } else if d == 3 {
        '3'
    } else if d == 4 {
        '4'
    } else if d == 5 {
        '5'
    } else if d == 6 {
        '6'
    } else if d == 7 {
        '7'
    } else if d == 8 {
        '8'
    } else if d == 9 {
        '9'
    } else if d == 10 {
        'a'
    } else if d == 11 {
        'b'
    } else if d == 12 {
        'c'
    } else if d == 13 {
        'd'
    } else if d == 14 {
        'e'
    } else {
        'f'
    }
}

/// Render bytes as lowercase hex.
fn bytes_to_hex(b: &Vec<u8>) -> (r: String)
    ensures
        r@ == hex_of_bytes(b@),
        r@.len() == 2 * b@.len(),
{
    let n = b.len();
    let mut out = String::new();
    let mut i: usize = 0;
    proof {
        assert(b@.subrange(0, 0) =~= Seq::<u8>::empty());
    }
    while i < n
        invariant
            n == b@.len(),
            i <= n,
            out@ == hex_of_bytes(b@.subrange(0, i as int)),
            out@.len() == 2 * i,
        decreases n - i,
    {
        let byte = b[i];
        crate::strutil::push_char(&mut out, hex_digit_char(byte / 16));
        crate::strutil::push_char(&mut out, hex_digit_char(byte % 16));
        proof {
            let cur = b@.subrange(0, i as int + 1);
            assert(cur.drop_last() =~= b@.subrange(0, i as int));
            assert(cur.last() == b@[i as int]);
            assert(out@ =~= hex_of_bytes(cur));
        }
        i = i + 1;
    }
    proof {
        assert(b@.subrange(0, n as int) =~= b@);
    }
    out
}

/// Hash a string and render the digest as lowercase hex.
fn sha256_hex(s: &str) -> (r: String)
    ensures
        r@ == sha256_hex_of(s@),
        r@.len() == 64,
{
    let digest = sha256_digest(s);
    bytes_to_hex(&digest)
}

/// Inserting a definition anywhere adds it to the multiset.
proof fn lemma_seq_insert_multiset(s: Seq<DefView>, i: int, d: DefView)
    requires
        0 <= i <= s.len(),
    ensures
        s.insert(i, d).to_multiset() == s.to_multiset().insert(d),
{
    broadcast use vstd::seq_lib::group_to_multiset_ensures;

    let pre = s.subrange(0, i);
    let post = s.subrange(i, s.len() as int);
    assert(s.insert(i, d) =~= pre + (seq![d] + post));
    assert(s =~= pre + post);
    lemma_multiset_commutative(pre, seq![d] + post);
    lemma_multiset_commutative(seq![d], post);
    lemma_multiset_commutative(pre, post);
    assert(seq![d].to_multiset() =~= Multiset::empty().insert(d)) by {
        assert(seq![d].drop_first() =~= Seq::<DefView>::empty());
    }
    assert(s.insert(i, d).to_multiset() =~= s.to_multiset().insert(d));
}

/// What `insert_by_id` does: it keeps the multiset, keeps sortedness, and
/// grows the sequence by one.
proof fn lemma_insert_by_id_ensures(d: DefView, s: Seq<DefView>)
    requires
        sorted_by_id(s),
    ensures
        insert_by_id(d, s).to_multiset() == s.to_multiset().insert(d),
        sorted_by_id(insert_by_id(d, s)),
        insert_by_id(d, s).len() == s.len() + 1,
    decreases s.len(),
{
    broadcast use vstd::seq_lib::group_to_multiset_ensures;

    let r = insert_by_id(d, s);
    if s.len() == 0 {
        lemma_seq_insert_multiset(s, 0, d);
        assert(s.insert(0, d) =~= seq![d]);
    } else if seq_le(s[0].id, d.id) {
        assert(sorted_by_id(s.drop_first()));
        lemma_insert_by_id_ensures(d, s.drop_first());
        let rest = insert_by_id(d, s.drop_first());
        assert(r =~= seq![s[0]] + rest);
        lemma_multiset_commutative(seq![s[0]], rest);
        lemma_multiset_commutative(seq![s[0]], s.drop_first());
        assert(s =~= seq![s[0]] + s.drop_first());
        assert(r.to_multiset() =~= s.to_multiset().insert(d));
        assert forall|i: int, j: int| 0 <= i < j < r.len() implies seq_le(
            #[trigger] r[i].id,
            #[trigger] r[j].id,
        ) by {
            if i == 0 {
                assert(r[j] == rest[j - 1]);
                assert(rest.to_multiset().contains(rest[j - 1]));
                assert(rest.to_multiset() == s.drop_first().to_multiset().insert(d));
                if rest[j - 1] == d {
                    assert(seq_le(s[0].id, d.id));
                } else {
                    assert(s.drop_first().to_multiset().contains(rest[j - 1]));
                    assert(s.drop_first().contains(rest[j - 1]));
                    let k = choose|k: int|
                        0 <= k < s.drop_first().len() && s.drop_first()[k] == rest[j - 1];
                    assert(s[k + 1] == rest[j - 1]);
                    assert(seq_le(s[0].id, s[k + 1].id));
                }
            } else {
                assert(r[i] == rest[i - 1] && r[j] == rest[j - 1]);
            }
        }
    } else {
        lemma_seq_insert_multiset(s, 0, d);
        assert(s.insert(0, d) =~= seq![d] + s);
        lemma_seq_le_total(s[0].id, d.id);
        assert(seq_le(d.id, s[0].id));
        assert forall|i: int, j: int| 0 <= i < j < r.len() implies seq_le(
            #[trigger] r[i].id,
            #[trigger] r[j].id,
        ) by {
            if i == 0 {
                assert(r[j] == s[j - 1]);
                if j == 1 {
                    assert(seq_le(d.id, s[0].id));
                } else {
                    assert(seq_le(s[0].id, s[j - 1].id));
                    lemma_seq_le_transitive(d.id, s[0].id, s[j - 1].id);
                }
            } else {
                assert(r[i] == s[i - 1] && r[j] == s[j - 1]);
            }
        }
    }
}

/// What the sort does: it keeps the multiset and sorts by id.
pub proof fn lemma_sort_defs_spec_ensures(s: Seq<DefView>)
    ensures
        sort_defs_spec(s).to_multiset() == s.to_multiset(),
        sorted_by_id(sort_defs_spec(s)),
        sort_defs_spec(s).len() == s.len(),
    decreases s.len(),
{
    broadcast use vstd::seq_lib::group_to_multiset_ensures;

    if s.len() == 0 {
    } else {
        lemma_sort_defs_spec_ensures(s.drop_last());
        lemma_insert_by_id_ensures(s.last(), sort_defs_spec(s.drop_last()));
        assert(s.drop_last().push(s.last()) =~= s);
        assert(s.drop_last().push(s.last()).to_multiset() == s.drop_last().to_multiset().insert(
            s.last(),
        ));
    }
}

/// Inserting at the first admissible position is what `insert_by_id` means.
proof fn lemma_insert_by_id_at(d: DefView, s: Seq<DefView>, k: int)
    requires
        0 <= k <= s.len(),
        forall|j: int| 0 <= j < k ==> seq_le(#[trigger] s[j].id, d.id),
        k < s.len() ==> !seq_le(s[k as int].id, d.id),
    ensures
        insert_by_id(d, s) == s.insert(k, d),
    decreases s.len(),
{
    if s.len() == 0 {
        assert(insert_by_id(d, s) =~= s.insert(0, d));
    } else if k == 0 {
        assert(!seq_le(s[0].id, d.id));
        assert(insert_by_id(d, s) =~= s.insert(0, d));
    } else {
        assert(seq_le(s[0].id, d.id));
        lemma_insert_by_id_at(d, s.drop_first(), k - 1);
        assert(insert_by_id(d, s) == seq![s[0]] + s.drop_first().insert(k - 1, d));
        assert(seq![s[0]] + s.drop_first().insert(k - 1, d) =~= s.insert(k, d));
    }
}

/// Insert a definition into a vector already sorted by id, after every
/// definition whose id is less than or equal to its own.
fn insert_def_sorted(out: &mut Vec<TagDefinition>, d: TagDefinition)
    requires
        sorted_by_id(old(out).deep_view()),
    ensures
        final(out).deep_view() == insert_by_id(d@, old(out).deep_view()),
{
    let ghost s = out.deep_view();
    let mut k: usize = 0;
    while k < out.len() && str_le(out[k].id.as_str(), d.id.as_str())
        invariant
            out.deep_view() == s,
            out@.len() == s.len(),
            k <= s.len(),
            forall|j: int| 0 <= j < k ==> seq_le(#[trigger] s[j].id, d.id@),
        decreases s.len() - k,
    {
        proof {
            assert(out.deep_view()[k as int] == out@[k as int]@);
        }
        k = k + 1;
    }
    proof {
        if (k as int) < s.len() {
            assert(out.deep_view()[k as int] == out@[k as int]@);
        }
        lemma_insert_by_id_at(d@, s, k as int);
    }
    out.insert(k, d);
    proof {
        assert(out.deep_view() =~= s.insert(k as int, d@));
    }
}

/// A collection of tag definitions with its computed fingerprint.
pub struct Taxonomy {
    /// All loaded tag definitions, sorted by id.
    pub definitions: Vec<TagDefinition>,
    /// Hex SHA-256 fingerprint of all definitions (for idempotency).
    pub hash: String,
}

impl Taxonomy {
    /// The taxonomy is a sorted snapshot, and the hash is the fingerprint of
    /// exactly these definitions.
    pub open spec fn wf(self) -> bool {
        &&& sorted_by_id(self.definitions.deep_view())
        &&& self.hash@ == sha256_hex_of(canon_of(self.definitions.deep_view()))
    }

    /// Create a new taxonomy from definitions, sorting by id and computing
    /// the fingerprint over the sorted sequence.
    pub fn new(definitions: Vec<TagDefinition>) -> (r: Taxonomy)
        ensures
            r.definitions.deep_view() == sort_defs_spec(definitions.deep_view()),
            r.definitions.deep_view().to_multiset() == definitions.deep_view().to_multiset(),
            sorted_by_id(r.definitions.deep_view()),
            r.hash@ == taxonomy_hash_of(definitions.deep_view()),
            r.hash@.len() == 64,
            r.wf(),
    {
        proof {
            lemma_sort_defs_spec_ensures(definitions.deep_view());
        }
        let ghost input = definitions.deep_view();
        let n = definitions.len();
        let mut sorted: Vec<TagDefinition> = Vec::new();
        let mut defs = definitions;
        let mut i: usize = 0;
        proof {
            assert(input.subrange(0, 0) =~= Seq::<DefView>::empty());
            assert(defs.deep_view() =~= input.skip(0));
        }
        while i < n
            invariant
                n == input.len(),
                defs.deep_view() == input.skip(i as int),
                defs@.len() == n - i,
                i <= n,
                sorted.deep_view() == sort_defs_spec(input.subrange(0, i as int)),
                sorted_by_id(sorted.deep_view()),
            decreases n - i,
        {
            let ghost before = defs.deep_view();
            let ghost prev = defs@;
            let d = defs.remove(0);
            proof {
                assert(before[0] == prev[0]@);
                assert(d == prev[0]);
                assert(before[0] == input.skip(i as int)[0]);
                assert(input.skip(i as int)[0] == input[i as int]);
                assert(d@ == input[i as int]);
                assert forall|k: int| 0 <= k < defs@.len() implies defs.deep_view()[k]
                    == input.skip(i as int + 1)[k] by {
                    assert(defs.deep_view()[k] == defs@[k]@);
                    assert(defs@[k] == prev.remove(0)[k]);
                    assert(prev.remove(0)[k] == prev[k + 1]);
                    assert(before[k + 1] == prev[k + 1]@);
                    assert(before[k + 1] == input.skip(i as int)[k + 1]);
                    assert(input.skip(i as int)[k + 1] == input[i + 1 + k]);
                    assert(input.skip(i as int + 1)[k] == input[i + 1 + k]);
                }
                assert(defs.deep_view() =~= input.skip(i as int + 1));
            }
            insert_def_sorted(&mut sorted, d);
            proof {
                let pre = input.subrange(0, i as int);
                let cur = input.subrange(0, i as int + 1);
                assert(cur.drop_last() =~= pre);
                assert(cur.last() == input[i as int]);
                lemma_insert_by_id_ensures(input[i as int], sort_defs_spec(pre));
            }
            i = i + 1;
        }
        proof {
            assert(input.subrange(0, n as int) =~= input);
        }
        let hash = hash_sorted(&sorted);
        Taxonomy { definitions: sorted, hash }
    }

    /// Get the first definition with the given id, if any.
    pub fn get(&self, id: &str) -> (r: Option<&TagDefinition>)
        ensures
            match r {
                Some(d) => d.id@ == id@ && exists|i: int|
                    0 <= i < self.definitions.deep_view().len()
                        && #[trigger] self.definitions.deep_view()[i] == d@ && (forall|k: int|
                        0 <= k < i ==> #[trigger] self.definitions.deep_view()[k].id != id@),
                None => forall|i: int|
                    0 <= i < self.definitions.deep_view().len()
                        ==> #[trigger] self.definitions.deep_view()[i].id != id@,
            },
    {
        let n = self.definitions.len();
        let mut i: usize = 0;
        while i < n
            invariant
                n == self.definitions@.len(),
                i <= n,
                forall|k: int| 0 <= k < i ==> #[trigger] self.definitions.deep_view()[k].id != id@,
            decreases n - i,
        {
            proof {
                assert(self.definitions.deep_view()[i as int] == self.definitions@[i as int]@);
            }
            if crate::strutil::str_eq(self.definitions[i].id.as_str(), id) {
                return Some(&self.definitions[i]);
            }
            i = i + 1;
        }
        None
    }

    /// All definition ids, in taxonomy order.
    pub fn ids(&self) -> (r: Vec<String>)
        ensures
            r@.len() == self.definitions@.len(),
            forall|i: int|
                0 <= i < r@.len() ==> #[trigger] r@[i]@ == self.definitions.deep_view()[i].id,
    {
        let n = self.definitions.len();
        let mut out: Vec<String> = Vec::new();
        let mut i: usize = 0;
        while i < n
            invariant
                n == self.definitions@.len(),
                i <= n,
                out@.len() == i,
                forall|k: int|
                    0 <= k < i ==> #[trigger] out@[k]@ == self.definitions.deep_view()[k].id,
            decreases n - i,
        {
            out.push(self.definitions[i].id.clone());
            proof {
                assert(self.definitions.deep_view()[i as int] == self.definitions@[i as int]@);
            }
            i = i + 1;
        }
        out
    }
}

/// Fingerprint a sequence of definitions exactly as ordered: hash the
/// concatenation of id, content and file path of each.
fn hash_sorted(defs: &Vec<TagDefinition>) -> (r: String)
    ensures
        r@ == sha256_hex_of(canon_of(defs.deep_view())),
        r@.len() == 64,
{
    let n = defs.len();
    let mut canon = String::new();
    let mut i: usize = 0;
    proof {
        assert(defs.deep_view().subrange(0, 0) =~= Seq::<DefView>::empty());
    }
    while i < n
        invariant
            n == defs@.len(),
            i <= n,
            canon@ == canon_of(defs.deep_view().subrange(0, i as int)),
        decreases n - i,
    {
        canon.append(defs[i].id.as_str());
        canon.append(defs[i].content.as_str());
        canon.append(defs[i].file_path.as_str());
        proof {
            let dv = defs.deep_view();
            let cur = dv.subrange(0, i as int + 1);
            assert(cur.drop_last() =~= dv.subrange(0, i as int));
            assert(cur.last() == dv[i as int]);
            assert(dv[i as int] == defs@[i as int]@);
        }
        i = i + 1;
    }
    proof {
        assert(defs.deep_view().subrange(0, n as int) =~= defs.deep_view());
    }
    sha256_hex(canon.as_str())
}

/// Compute the deterministic fingerprint of a set of tag definitions,
/// independently of their order. Used for idempotency checks.
pub fn compute_taxonomy_hash(definitions: &Vec<TagDefinition>) -> (r: String)
    ensures
        r@ == taxonomy_hash_of(definitions.deep_view()),
        r@.len() == 64,
{
    let t = Taxonomy::new(clone_defs(definitions));
    t.hash
}

/// Definition sets that are permutations of each other and have pairwise
/// distinct ids always fingerprint to the same taxonomy hash, whatever the
/// load order.
pub proof fn lemma_taxonomy_hash_permutation_invariant(d1: Seq<DefView>, d2: Seq<DefView>)
    requires
        d1.to_multiset() == d2.to_multiset(),
        unique_ids(d1),
        unique_ids(d2),
    ensures
        taxonomy_hash_of(d1) == taxonomy_hash_of(d2),
{
    lemma_sort_defs_spec_ensures(d1);
    lemma_sort_defs_spec_ensures(d2);
    lemma_unique_ids_permutation(d1, sort_defs_spec(d1));
    lemma_unique_ids_permutation(d2, sort_defs_spec(d2));
    lemma_sorted_unique_by_id(sort_defs_spec(d1), sort_defs_spec(d2));
}

/// Id uniqueness carries over to any permutation.
proof fn lemma_unique_ids_permutation(s: Seq<DefView>, t: Seq<DefView>)
    requires
        s.to_multiset() == t.to_multiset(),
        unique_ids(s),
    ensures
        unique_ids(t),
{
    broadcast use vstd::seq_lib::group_to_multiset_ensures;

    assert forall|i: int, j: int| 0 <= i < j < t.len() implies #[trigger] t[i].id
        != #[trigger] t[j].id by {
        if t[i].id == t[j].id {
            if t[i] == t[j] {
                // the same definition would occur twice in s as well
                assert(t.remove(j).to_multiset() == t.to_multiset().remove(t[j]));
                assert(t.remove(j)[i] == t[i]);
                assert(t.remove(j).to_multiset().contains(t[i]));
                assert(s.to_multiset().remove(t[j]).contains(t[i]));
                assert(s.to_multiset().count(t[i]) >= 2);
                let i1 = choose|k: int| 0 <= k < s.len() && s[k] == t[i];
                assert(s.remove(i1).to_multiset() == s.to_multiset().remove(s[i1]));
                assert(s.remove(i1).to_multiset().count(t[i]) >= 1);
                assert(s.remove(i1).contains(t[i]));
                let i2 = choose|k: int| 0 <= k < s.remove(i1).len() && s.remove(i1)[k] == t[i];
                if i2 < i1 {
                    assert(s[i2] == t[i]);
                    assert(s[i2].id == s[i1].id);
                } else {
                    assert(s[i2 + 1] == t[i]);
                    assert(s[i2 + 1].id == s[i1].id);
                }
            } else {
                // two distinct definitions with one id would both occur in s
                assert(s.to_multiset().contains(t[i]));
                assert(s.to_multiset().contains(t[j]));
                assert(s.contains(t[i]));
                assert(s.contains(t[j]));
                let k1 = choose|k: int| 0 <= k < s.len() && s[k] == t[i];
                let k2 = choose|k: int| 0 <= k < s.len() && s[k] == t[j];
                assert(k1 != k2);
                assert(s[k1].id == s[k2].id);
            }
        }
    }
}

/// Two sequences sorted by id, with the same elements and distinct ids, are
/// the same sequence.
proof fn lemma_sorted_unique_by_id(x: Seq<DefView>, y: Seq<DefView>)
    requires
        sorted_by_id(x),
        sorted_by_id(y),
        unique_ids(x),
        unique_ids(y),
        x.to_multiset() == y.to_multiset(),
    ensures
        x == y,
    decreases x.len(),
{
    broadcast use vstd::seq_lib::group_to_multiset_ensures;

    assert(x.to_multiset().len() == x.len());
    assert(y.to_multiset().len() == y.len());
    if x.len() == 0 {
        assert(y.len() == 0);
        assert(x =~= y);
    } else {
        assert(y.len() > 0);
        assert(x.to_multiset().contains(x[0]));
        assert(y.to_multiset().contains(y[0]));
        assert(y.contains(x[0]));
        assert(x.contains(y[0]));
        let j = choose|k: int| 0 <= k < y.len() && y[k] == x[0];
        let i = choose|k: int| 0 <= k < x.len() && x[k] == y[0];
        if j > 0 {
            assert(seq_le(y[0].id, y[j].id));
        }
        if i > 0 {
            assert(seq_le(x[0].id, x[i].id));
        }
        lemma_seq_le_antisymmetric(x[0].id, y[0].id);
        assert(x[0].id == y[0].id);
        if i > 0 {
            assert(x[0].id != x[i].id);
            assert(false);
        }
        assert(x[0] == y[0]);
        assert(x.remove(0).to_multiset() == x.to_multiset().remove(x[0]));
        assert(y.remove(0).to_multiset() == y.to_multiset().remove(y[0]));
        assert(x.remove(0) =~= x.drop_first());
        assert(y.remove(0) =~= y.drop_first());
        assert(sorted_by_id(x.drop_first())) by {
            assert forall|a: int, b: int| 0 <= a < b < x.drop_first().len() implies seq_le(
                #[trigger] x.drop_first()[a].id,
                #[trigger] x.drop_first()[b].id,
            ) by {
                assert(x.drop_first()[a] == x[a + 1]);
                assert(x.drop_first()[b] == x[b + 1]);
            }
        }
        assert(sorted_by_id(y.drop_first())) by {
            assert forall|a: int, b: int| 0 <= a < b < y.drop_first().len() implies seq_le(
                #[trigger] y.drop_first()[a].id,
                #[trigger] y.drop_first()[b].id,
            ) by {
                assert(y.drop_first()[a] == y[a + 1]);
                assert(y.drop_first()[b] == y[b + 1]);
            }
        }
        assert(unique_ids(x.drop_first())) by {
            assert forall|a: int, b: int|
                0 <= a < b < x.drop_first().len() implies #[trigger] x.drop_first()[a].id
                != #[trigger] x.drop_first()[b].id by {
                assert(x.drop_first()[a] == x[a + 1]);
                assert(x.drop_first()[b] == x[b + 1]);
            }
        }
        assert(unique_ids(y.drop_first())) by {
            assert forall|a: int, b: int|
                0 <= a < b < y.drop_first().len() implies #[trigger] y.drop_first()[a].id
                != #[trigger] y.drop_first()[b].id by {
                assert(y.drop_first()[a] == y[a + 1]);
                assert(y.drop_first()[b] == y[b + 1]);
            }
        }
        lemma_sorted_unique_by_id(x.drop_first(), y.drop_first());
        assert(x.drop_first().len() == x.len() - 1);
        assert(y.drop_first().len() == y.len() - 1);
        assert forall|k: int| 0 <= k < x.len() implies x[k] == y[k] by {
            if k > 0 {
                assert(x.drop_first()[k - 1] == y.drop_first()[k - 1]);
            }
        }
        assert(x =~= y);
    }
}

/// Input for the classification use case.
pub struct ClassifyInput {
    /// The post to classify.
    pub post: SourcePost,
    /// Tag definitions to consider.
    pub definitions: Vec<TagDefinition>,
    /// Maximum output characters (for platform constraints).
    pub max_output_chars: Option<usize>,
    /// Optional policy/guardrails text.
    pub policy_text: Option<String>,
}

/// A single tag match in classification output.
pub struct TagMatch {
    /// Tag ID that matched.
    pub id: String,
    /// Confidence score in hundredths, 0 to 100.
    pub confidence: u32,
    /// Rationale for the match.
    pub rationale: String,
    /// Evidence excerpts from the post.
    pub evidence: Vec<String>,
}

/// The mathematical content of a `TagMatch`.
pub ghost struct TagMatchView {
    pub id: Seq<char>,
    pub confidence: int,
    pub rationale: Seq<char>,
    pub evidence: Seq<Seq<char>>,
}

impl View for TagMatch {
    type V = TagMatchView;

    open spec fn view(&self) -> TagMatchView {
        TagMatchView {
            id: self.id@,
            confidence: self.confidence as int,
            rationale: self.rationale@,
            evidence: self.evidence.deep_view(),
        }
    }
}

impl DeepView for TagMatch {
    type V = TagMatchView;

    open spec fn deep_view(&self) -> TagMatchView {
        self.view()
    }
}

impl TagMatch {
    /// A field-for-field copy of the match.
    pub fn duplicate(&self) -> (r: TagMatch)
        ensures
            r@ == self@,
    {
        let r = TagMatch {
            id: self.id.clone(),
            confidence: self.confidence,
            rationale: self.rationale.clone(),
            evidence: clone_strings(&self.evidence),
        };
        proof {
            assert(r.evidence.deep_view() =~= self.evidence.deep_view());
        }
        r
    }
}

/// A copy of a vector of tag matches with the same views.
pub fn clone_tags(v: &Vec<TagMatch>) -> (r: Vec<TagMatch>)
    ensures
        r.deep_view() == v.deep_view(),
{
    let mut out: Vec<TagMatch> = Vec::new();
    let n = v.len();
    let mut i: usize = 0;
    while i < n
        invariant
            n == v@.len(),
            i <= n,
            out@.len() == i,
            out.deep_view() =~= v.deep_view().subrange(0, i as int),
        decreases n - i,
    {
        let ghost prev = out@;
        let ghost prev_dv = out.deep_view();
        let d = v[i].duplicate();
        out.push(d);
        proof {
            let dv = v.deep_view();
            assert(dv[i as int] == v@[i as int]@);
            assert forall|k: int| 0 <= k < i + 1 implies out.deep_view()[k] == dv.subrange(
                0,
                i as int + 1,
            )[k] by {
                assert(out.deep_view()[k] == out@[k]@);
                if k < i {
                    assert(out@[k] == prev[k]);
                    assert(prev_dv[k] == prev[k]@);
                    assert(prev_dv[k] == dv.subrange(0, i as int)[k]);
                } else {
                    assert(out@[k] == d);
                }
            }
            assert(out.deep_view() =~= dv.subrange(0, i as int + 1));
        }
        i = i + 1;
    }
    proof {
        assert(v.deep_view().subrange(0, n as int) =~= v.deep_view());
    }
    out
}

/// Output from the classification use case.
pub struct ClassifyOutput {
    /// Schema version.
    pub version: String,
    /// Neutral summary of the post.
    pub summary: String,
    /// Matched tags with confidences.
    pub tags: Vec<TagMatch>,
}

/// The mathematical content of a `ClassifyOutput`.
pub ghost struct OutputView {
    pub version: Seq<char>,
    pub summary: Seq<char>,
    pub tags: Seq<TagMatchView>,
}

impl View for ClassifyOutput {
    type V = OutputView;

    open spec fn view(&self) -> OutputView {
        OutputView { version: self.version@, summary: self.summary@, tags: self.tags.deep_view() }
    }
}

impl DeepView for ClassifyOutput {
    type V = OutputView;

    open spec fn deep_view(&self) -> OutputView {
        self.view()
    }
}

impl ClassifyOutput {
    /// The current schema version tag.
    pub fn schema_version() -> (r: String)
        ensures
            r@ == "1"@,
    {
        String::from_str("1")
    }

    /// Create a new classification output under the current schema version.
    pub fn new(summary: String, tags: Vec<TagMatch>) -> (r: ClassifyOutput)
        ensures
            r@.version == "1"@,
            r@.summary == summary@,
            r@.tags == tags.deep_view(),
    {
        ClassifyOutput { version: Self::schema_version(), summary, tags }
    }

    /// A field-for-field copy of the output.
    pub fn duplicate(&self) -> (r: ClassifyOutput)
        ensures
            r@ == self@,
    {
        ClassifyOutput {
            version: self.version.clone(),
            summary: self.summary.clone(),
            tags: clone_tags(&self.tags),
        }
    }
}

/// Publishing mode for length-constrained posts.
#[derive(Clone, Copy, PartialEq, Eq, Structural)]
pub enum XPublishMode {
    /// Reply to the original post.
    Reply,
    /// Quote the original post.
    Quote,
    /// Create a standalone post with link.
    NewPost,
}

impl Default for XPublishMode {
    /// The default mode is `Reply`.
    fn default() -> (r: XPublishMode)
        ensures
            r == XPublishMode::Reply,
    {
        XPublishMode::Reply
    }
}

/// Rendered content ready for publishing.
pub struct RenderedPost {
    /// The text content.
    pub text: String,
    /// Reference to the original post.
    pub source_post_id: String,
    /// Source post URL.
    pub source_post_url: String,
}

/// The mathematical content of a `RenderedPost`.
pub ghost struct RenderedView {
    pub text: Seq<char>,
    pub source_post_id: Seq<char>,
    pub source_post_url: Seq<char>,
}

impl View for RenderedPost {
    type V = RenderedView;

    open spec fn view(&self) -> RenderedView {
        RenderedView {
            text: self.text@,
            source_post_id: self.source_post_id@,
            source_post_url: self.source_post_url@,
        }
    }
}

/// Record of a published post (for idempotency).
pub struct PublishedRecord {
    /// Unique record ID.
    pub id: String,
    /// Source post ID.
    pub source_post_id: String,
    /// Taxonomy hash at time of publishing.
    pub taxonomy_hash: String,
    /// Platform post ID if published to the length-constrained platform.
    pub x_post_id: Option<String>,
    /// Event ID if published to the long-form platform.
    pub nostr_event_id: Option<String>,
    /// When published, as Unix seconds.
    pub published_at: i64,
}

/// Account watch state.
pub struct AccountState {
    /// Account username.
    pub account: String,
    /// Last seen post ID.
    pub since_id: Option<String>,
    /// When last updated, as Unix seconds.
    pub updated_at: i64,
}

/// Processing result for a single post.
pub enum ProcessResult {
    /// Post was classified and published.
    Published {
        classification: ClassifyOutput,
        x_post_id: Option<String>,
        nostr_event_id: Option<String>,
    },
    /// Post was skipped (already processed, filtered, etc.).
    Skipped { reason: String },
    /// Classification or publishing failed.
    Failed { error: String },
}

} // verus!
