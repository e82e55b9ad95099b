//! Voice style vectors: parsing voice files, storing and looking them up, and
//! describing the voices a model directory offers.
//!
//! A voice file holds `N` style vectors of 256 little-endian `f32` values each.
//! The store keeps each value as the bit pattern of the `f32` (a `u32`).
use vstd::prelude::*;
use vstd::utf8::*;
use vstd::string::StringSliceAdditionalSpecFns;

use crate::kokoro::{IoFailure, IoFailureView, KokoroError, KokoroErrorView};
use crate::sort::{lemma_sort_by_sorted, name_key, sort_by, sort_names, sorted_by};
use crate::paths::{joined_path, join_path};
use crate::text::{bytes_lt, decimal, decimal_digits, joined, lemma_bytes_lt_total, str_eq};
use crate::{TtsError, TtsErrorView, VoiceInfo};

verus! {

broadcast use vstd::seq_lib::group_seq_properties, vstd::seq_lib::to_multiset_contains;

/// Number of values in one style vector.
pub const STYLE_DIM: usize = 256;

// ---------------------------------------------------------------------------
// Parsing voice files
// ---------------------------------------------------------------------------

/// The little-endian 32-bit word at `at` in `b`.
pub open spec fn le_word(b: Seq<u8>, at: int) -> int {
    b[at] as int + b[at + 1] as int * 256 + b[at + 2] as int * 65536 + b[at + 3] as int * 16777216
}

/// `words` are the consecutive little-endian 32-bit words of `data`.
pub open spec fn words_of(data: Seq<u8>, words: Seq<u32>) -> bool {
    &&& words.len() == data.len() / 4
    &&& forall|k: int| 0 <= k < words.len() ==> #[trigger] words[k] as int == le_word(data, 4 * k)
}

/// The message for a voice file whose length is no multiple of 4 bytes.
pub open spec fn byte_length_message(name: Seq<char>, len: nat) -> Seq<char> {
    name + ": byte length "@ + decimal_digits(len) + " is not a multiple of 4"@
}

/// The message for a voice file whose value count is no multiple of 256.
pub open spec fn float_count_message(name: Seq<char>, count: nat) -> Seq<char> {
    name + ": float count "@ + decimal_digits(count)
        + " is not a multiple of 256 (style vector dim)"@
}

/// Whether a voice file of `len` bytes is well formed.
pub open spec fn voice_data_ok(len: nat) -> bool {
    len % 4 == 0 && (len / 4) % 256 == 0
}

/// Parses a voice file: a flat `[N, 256]` array of little-endian `f32` values,
/// returned as their bit patterns, in file order.
pub fn parse_raw_f32_styles(data: &[u8], name: &str) -> (res: Result<Vec<u32>, KokoroError>)
    ensures
        match res {
            Ok(words) => voice_data_ok(data@.len()) && words_of(data@, words@),
            Err(e) => !voice_data_ok(data@.len()) && e@ == KokoroErrorView::VoiceParse(
                if data@.len() % 4 != 0 {
                    byte_length_message(name@, data@.len())
                } else {
                    float_count_message(name@, data@.len() / 4)
                },
            ),
        },
{
    let len = data.len();
    if len % 4 != 0 {
        let mut m = name.to_owned();
        m.append(": byte length ");
        m.append(decimal(len).as_str());
        m.append(" is not a multiple of 4");
        return Err(KokoroError::VoiceParse(m));
    }
    let n_floats = len / 4;
    if n_floats % 256 != 0 {
        let mut m = name.to_owned();
        m.append(": float count ");
        m.append(decimal(n_floats).as_str());
        m.append(" is not a multiple of 256 (style vector dim)");
        return Err(KokoroError::VoiceParse(m));
    }
    let mut words: Vec<u32> = Vec::new();
    let mut k: usize = 0;
    while k < n_floats
        invariant
            len == data@.len(),
            n_floats == len / 4,
            len % 4 == 0,
            k <= n_floats,
            words@.len() == k,
            forall|j: int| 0 <= j < k ==> #[trigger] words@[j] as int == le_word(data@, 4 * j),
        decreases n_floats - k,
    {
        let o = 4 * k;
        let w = data[o] as u32 + (data[o + 1] as u32) * 256 + (data[o + 2] as u32) * 65536 + (
        data[o + 3] as u32) * 16777216;
        words.push(w);
        k = k + 1;
    }
    Ok(words)
}

// ---------------------------------------------------------------------------
// The store
// ---------------------------------------------------------------------------

struct VoiceEntry {
    name: String,
    styles: Vec<u32>,
}

/// All loaded voices: for each voice name, its style vectors back to back.
pub struct VoiceStore {
    entries: Vec<VoiceEntry>,
}

spec fn entries_map(s: Seq<VoiceEntry>) -> Map<Seq<char>, Seq<u32>>
    decreases s.len(),
{
    if s.len() == 0 {
        Map::empty()
    } else {
        entries_map(s.drop_last()).insert(s.last().name@, s.last().styles@)
    }
}

spec fn distinct_names(s: Seq<VoiceEntry>) -> bool {
    forall|i: int, j: int| 0 <= i < j < s.len() ==> s[i].name@ != s[j].name@
}

spec fn entry_names(s: Seq<VoiceEntry>) -> Seq<String> {
    s.map_values(|e: VoiceEntry| e.name)
}

impl View for VoiceStore {
    type V = Map<Seq<char>, Seq<u32>>;

    closed spec fn view(&self) -> Map<Seq<char>, Seq<u32>> {
        entries_map(self.entries@)
    }
}

proof fn lemma_entries_map(s: Seq<VoiceEntry>)
    requires
        distinct_names(s),
    ensures
        forall|i: int|
            0 <= i < s.len() ==> #[trigger] entries_map(s).contains_key(s[i].name@)
                && entries_map(s)[s[i].name@] == s[i].styles@,
        forall|k: Seq<char>|
            #[trigger] entries_map(s).contains_key(k) ==> exists|i: int|
                0 <= i < s.len() && s[i].name@ == k,
    decreases s.len(),
{
    if s.len() > 0 {
        let t = s.drop_last();
        lemma_entries_map(t);
        assert forall|i: int| 0 <= i < s.len() implies #[trigger] entries_map(s).contains_key(
            s[i].name@,
        ) && entries_map(s)[s[i].name@] == s[i].styles@ by {
            if i < s.len() - 1 {
                assert(t[i] == s[i]);
                assert(entries_map(t).contains_key(t[i].name@));
                assert(s[i].name@ != s[s.len() - 1].name@);
            }
        }
        assert forall|k: Seq<char>| #[trigger] entries_map(s).contains_key(k) implies exists|i: int|
            0 <= i < s.len() && s[i].name@ == k by {
            if k != s.last().name@ {
                assert(entries_map(t).contains_key(k));
                let i = choose|i: int| 0 <= i < t.len() && t[i].name@ == k;
                assert(s[i] == t[i]);
            }
        }
    }
}

impl VoiceStore {
    #[verifier::type_invariant]
    spec fn inv(self) -> bool {
        &&& distinct_names(self.entries@)
        &&& forall|i: int|
            0 <= i < self.entries@.len() ==> (#[trigger] self.entries@[i]).styles@.len() % 256 == 0
    }

    /// An empty store.
    pub fn new() -> (s: Self)
        ensures
            s@ == Map::<Seq<char>, Seq<u32>>::empty(),
    {
        VoiceStore { entries: Vec::new() }
    }

    /// Whether no voice is stored.
    pub fn is_empty(&self) -> (res: bool)
        ensures
            res == (self@ == Map::<Seq<char>, Seq<u32>>::empty()),
    {
        proof {
            use_type_invariant(self);
            lemma_entries_map(self.entries@);
            if self.entries@.len() > 0 {
                assert(self@.contains_key(self.entries@[0].name@));
            }
        }
        self.entries.len() == 0
    }

    fn find(&self, name: &str) -> (res: Option<usize>)
        ensures
            match res {
                Some(i) => i < self.entries@.len() && self.entries@[i as int].name@ == name@,
                None => !self@.contains_key(name@),
            },
    {
        proof {
            use_type_invariant(self);
            lemma_entries_map(self.entries@);
        }
        let mut i: usize = 0;
        while i < self.entries.len()
            invariant
                i <= self.entries@.len(),
                forall|j: int| 0 <= j < i ==> self.entries@[j].name@ != name@,
            decreases self.entries@.len() - i,
        {
            if str_eq(self.entries[i].name.as_str(), name) {
                return Some(i);
            }
            i = i + 1;
        }
        None
    }

    /// Stores `styles` under `name`, replacing what was stored there.
    pub fn insert(&mut self, name: String, styles: Vec<u32>)
        requires
            styles@.len() % 256 == 0,
        ensures
            final(self)@ == old(self)@.insert(name@, styles@),
    {
        proof {
            use_type_invariant(&*self);
            lemma_entries_map(self.entries@);
        }
        let ghost old_entries = self.entries@;
        let found = self.find(name.as_str());
        let mut entries: Vec<VoiceEntry> = Vec::new();
        std::mem::swap(&mut entries, &mut self.entries);
        assert(entries@ == old_entries);
        match found {
            Some(i) => {
                entries.set(i, VoiceEntry { name, styles });
                proof {
                    let s = entries@;
                    assert(distinct_names(s));
                    lemma_entries_map(s);
                    assert(entries_map(s) =~= entries_map(old_entries).insert(
                        s[i as int].name@,
                        s[i as int].styles@,
                    )) by {
                        assert forall|k: Seq<char>| #[trigger]
                            entries_map(s).contains_key(k) implies entries_map(
                            old_entries,
                        ).insert(s[i as int].name@, s[i as int].styles@).contains_key(k) by {
                            let j = choose|j: int| 0 <= j < s.len() && s[j].name@ == k;
                            if j != i {
                                assert(s[j] == old_entries[j]);
                            }
                        }
                        assert forall|k: Seq<char>| #[trigger]
                            entries_map(old_entries).contains_key(k) implies entries_map(
                            s,
                        ).contains_key(k) by {
                            let j = choose|j: int|
                                0 <= j < old_entries.len() && old_entries[j].name@ == k;
                            if j != i {
                                assert(s[j] == old_entries[j]);
                            }
                        }
                        assert forall|k: Seq<char>| #[trigger]
                            entries_map(s).contains_key(k) && k != s[i as int].name@ implies entries_map(
                            s,
                        )[k] == entries_map(old_entries)[k] by {
                            let j = choose|j: int| 0 <= j < s.len() && s[j].name@ == k;
                            assert(s[j] == old_entries[j]);
                        }
                    }
                }
            },
            None => {
                entries.push(VoiceEntry { name, styles });
                proof {
                    assert(entries@.drop_last() =~= old_entries);
                }
            },
        }
        self.entries = entries;
    }

    /// How many style vectors `voice` has, or `None` if there is no such voice.
    pub fn style_count(&self, voice: &str) -> (res: Option<usize>)
        ensures
            match res {
                Some(n) => self@.contains_key(voice@) && n == self@[voice@].len() / 256,
                None => !self@.contains_key(voice@),
            },
    {
        proof {
            use_type_invariant(self);
            lemma_entries_map(self.entries@);
        }
        match self.find(voice) {
            None => None,
            Some(i) => {
                proof {
                    assert(self@.contains_key(self.entries@[i as int].name@));
                }
                Some(self.entries[i].styles.len() / STYLE_DIM)
            },
        }
    }

    /// The style vector that `voice` uses at position `idx`; positions past the
    /// last vector give the last one, so any index is safe.
    pub fn get_style(&self, voice: &str, idx: usize) -> (res: Result<Vec<u32>, KokoroError>)
        requires
            self@.contains_key(voice@) ==> self@[voice@].len() > 0,
        ensures
            match res {
                Ok(v) => self@.contains_key(voice@) && v@ == style_at(self@[voice@], idx as int),
                Err(e) => !self@.contains_key(voice@) && e@ == KokoroErrorView::VoiceNotFound(
                    voice@,
                ),
            },
    {
        proof {
            use_type_invariant(self);
            lemma_entries_map(self.entries@);
        }
        match self.find(voice) {
            None => Err(KokoroError::VoiceNotFound(voice.to_owned())),
            Some(i) => {
                let styles = &self.entries[i].styles;
                proof {
                    assert(self@.contains_key(self.entries@[i as int].name@));
                    assert(styles@ == self@[voice@]);
                    vstd::arithmetic::div_mod::lemma_fundamental_div_mod(styles@.len() as int, 256);
                }
                let n = styles.len() / STYLE_DIM;
                let c = if idx < n - 1 {
                    idx
                } else {
                    n - 1
                };
                let start = c * STYLE_DIM;
                let mut v: Vec<u32> = Vec::new();
                let mut j: usize = 0;
                while j < STYLE_DIM
                    invariant
                        styles@.len() % 256 == 0,
                        n == styles@.len() / 256,
                        c < n,
                        start == c * 256,
                        j <= 256,
                        v@ == styles@.subrange(start as int, start + j),
                    decreases 256 - j,
                {
                    v.push(styles[start + j]);
                    j = j + 1;
                }
                Ok(v)
            },
        }
    }

    /// The names of all voices in sorted order.
    pub fn list_voices(&self) -> (names: Vec<String>)
        ensures
            forall|i: int, j: int|
                0 <= i < j < names@.len() ==> bytes_lt(
                    encode_utf8(names@[i]@),
                    encode_utf8(names@[j]@),
                ),
            forall|k: Seq<char>|
                self@.contains_key(k) <==> exists|i: int| 0 <= i < names@.len() && names@[i]@ == k,
    {
        proof {
            use_type_invariant(self);
            lemma_entries_map(self.entries@);
        }
        let mut all: Vec<String> = Vec::new();
        let mut i: usize = 0;
        while i < self.entries.len()
            invariant
                i <= self.entries@.len(),
                all@ == entry_names(self.entries@).take(i as int),
            decreases self.entries@.len() - i,
        {
            all.push(self.entries[i].name.clone());
            i = i + 1;
        }
        let ghost en = entry_names(self.entries@);
        assert(en.take(en.len() as int) =~= en);
        let names = sort_names(&all);
        proof {
            lemma_listed_names(self.entries@, names@);
        }
        names
    }
}

/// The style vector at position `idx` of `styles`, clamped to the last one.
pub open spec fn style_at(styles: Seq<u32>, idx: int) -> Seq<u32> {
    let n = styles.len() / 256;
    let c = if idx < n - 1 {
        idx
    } else {
        n - 1
    };
    styles.subrange(c * 256, c * 256 + 256)
}

proof fn lemma_listed_names(s: Seq<VoiceEntry>, names: Seq<String>)
    requires
        distinct_names(s),
        names == sort_by(entry_names(s), name_key()),
    ensures
        forall|i: int, j: int|
            0 <= i < j < names.len() ==> bytes_lt(encode_utf8(names[i]@), encode_utf8(names[j]@)),
        forall|k: Seq<char>|
            entries_map(s).contains_key(k) <==> exists|i: int| 0 <= i < names.len() && names[i]@ == k,
{
    let en = entry_names(s);
    lemma_entries_map(s);
    lemma_sort_names_distinct(en);
    assert forall|k: Seq<char>| entries_map(s).contains_key(k) implies exists|i: int|
        0 <= i < names.len() && names[i]@ == k by {
        let j = choose|j: int| 0 <= j < s.len() && s[j].name@ == k;
        assert(en[j] == s[j].name);
        assert(en.contains(en[j]));
        assert(names.contains(en[j]));
    }
    assert forall|k: Seq<char>|
        (exists|i: int| 0 <= i < names.len() && names[i]@ == k) implies entries_map(s).contains_key(
        k,
    ) by {
        let i = choose|i: int| 0 <= i < names.len() && names[i]@ == k;
        assert(names.contains(names[i]));
        assert(en.contains(names[i]));
        let j = choose|j: int| 0 <= j < en.len() && en[j] == names[i];
        assert(en[j] == s[j].name);
        assert(entries_map(s).contains_key(s[j].name@));
    }
}

proof fn lemma_sort_names_distinct(names: Seq<String>)
    requires
        forall|i: int, j: int| 0 <= i < j < names.len() ==> names[i]@ != names[j]@,
    ensures
        forall|i: int, j: int|
            0 <= i < j < sort_by(names, name_key()).len() ==> bytes_lt(
                encode_utf8(sort_by(names, name_key())[i]@),
                encode_utf8(sort_by(names, name_key())[j]@),
            ),
        forall|x: String| sort_by(names, name_key()).contains(x) <==> names.contains(x),
{
    let r = sort_by(names, name_key());
    lemma_sort_by_sorted(names, name_key());
    assert(names.no_duplicates());
    names.lemma_multiset_has_no_duplicates();
    r.lemma_multiset_has_no_duplicates_conv();
    assert forall|x: String| r.contains(x) <==> names.contains(x) by {
        assert(r.to_multiset().count(x) == names.to_multiset().count(x));
    }
    assert forall|i: int, j: int| 0 <= i < j < r.len() implies bytes_lt(
        encode_utf8(r[i]@),
        encode_utf8(r[j]@),
    ) by {
        assert(!bytes_lt(encode_utf8(r[j]@), encode_utf8(r[i]@)));
        lemma_bytes_lt_total(encode_utf8(r[i]@), encode_utf8(r[j]@));
        if encode_utf8(r[i]@) =~= encode_utf8(r[j]@) {
            encode_utf8_decode_utf8(r[i]@);
            encode_utf8_decode_utf8(r[j]@);
            assert(r.contains(r[i]));
            assert(r.contains(r[j]));
            let a = choose|a: int| 0 <= a < names.len() && names[a] == r[i];
            let b = choose|b: int| 0 <= b < names.len() && names[b] == r[j];
            assert(r[i] != r[j]);
            assert(a != b);
        }
    }
}

/// Reading back a voice file: after its words are stored under `name`, the
/// style vector at any index is the file's vector at that index clamped to the
/// last one, value `j` being the little-endian word at byte `4 * (256 * c + j)`.
pub proof fn lemma_style_reads_file(
    store: Map<Seq<char>, Seq<u32>>,
    name: Seq<char>,
    data: Seq<u8>,
    words: Seq<u32>,
    idx: int,
    j: int,
)
    requires
        voice_data_ok(data.len()),
        data.len() > 0,
        words_of(data, words),
        0 <= idx,
        0 <= j < 256,
    ensures
        ({
            let n = data.len() / 1024;
            let c = if idx < n - 1 {
                idx
            } else {
                n - 1
            };
            &&& store.insert(name, words).contains_key(name)
            &&& style_at(store.insert(name, words)[name], idx).len() == 256
            &&& style_at(store.insert(name, words)[name], idx)[j] as int == le_word(
                data,
                4 * (256 * c + j),
            )
        }),
{
    let n = data.len() / 1024;
    vstd::arithmetic::div_mod::lemma_fundamental_div_mod(data.len() as int, 4);
    vstd::arithmetic::div_mod::lemma_fundamental_div_mod((data.len() / 4) as int, 256);
    vstd::arithmetic::div_mod::lemma_div_denominator(data.len() as int, 4, 256);
    assert(words.len() / 256 == n);
    assert(words.len() >= 256);
    assert(n >= 1);
    let c = if idx < n - 1 {
        idx
    } else {
        n - 1
    };
    assert(0 <= c < n);
    assert(256 * c + j < words.len()) by (nonlinear_arith)
        requires
            0 <= c < n,
            words.len() == 256 * n,
            0 <= j < 256,
    ;
    assert(store.insert(name, words)[name] == words);
    assert(style_at(words, idx)[j] == words[256 * c + j]);
}

// ---------------------------------------------------------------------------
// Loading a directory of voice files
// ---------------------------------------------------------------------------

/// What the loader sees of one directory entry: how the path displays, and its
/// file stem and extension where they are valid UTF-8.
pub struct VoiceFileEntry {
    pub display: String,
    pub stem: Option<String>,
    pub extension: Option<String>,
}

/// The entry is a `.bin` file.
pub open spec fn is_bin_file(e: VoiceFileEntry) -> bool {
    e.extension matches Some(x) && x@ == "bin"@
}

/// The entry names a voice: a `.bin` file with a non-empty stem.
pub open spec fn names_voice(e: VoiceFileEntry) -> bool {
    is_bin_file(e) && (e.stem matches Some(st) && st@.len() > 0)
}

/// The voice name an entry gives: `None` for files that are not `.bin`; an
/// error for a `.bin` file without a usable stem.
pub fn voice_file_name(entry: &VoiceFileEntry) -> (res: Result<Option<String>, KokoroError>)
    ensures
        !is_bin_file(*entry) ==> res matches Ok(None),
        names_voice(*entry) ==> (res matches Ok(Some(n)) && (entry.stem matches Some(st) && n@ == st@)),
        is_bin_file(*entry) && !names_voice(*entry) ==> (res matches Err(e) && e@
            == KokoroErrorView::VoiceParse("Invalid voice file name: "@ + entry.display@)),
{
    let is_bin = match &entry.extension {
        Some(x) => str_eq(x.as_str(), "bin"),
        None => false,
    };
    if !is_bin {
        return Ok(None);
    }
    match &entry.stem {
        Some(st) => {
            if !st.as_str().is_empty() {
                return Ok(Some(st.clone()));
            }
        },
        None => {},
    }
    Err(KokoroError::VoiceParse(joined("Invalid voice file name: ", entry.display.as_str())))
}

/// The error for a voice file that could not be read.
pub fn voice_read_failure(display: &str, detail: &str) -> (e: KokoroError)
    ensures
        e@ == KokoroErrorView::VoiceParse("Failed to read "@ + display@ + ": "@ + detail@),
{
    let mut m = joined("Failed to read ", display);
    m.append(": ");
    m.append(detail);
    KokoroError::VoiceParse(m)
}

/// The message for a model directory without a `voices` directory.
pub fn voices_not_found_message(voices_dir: &str) -> (m: String)
    ensures
        m@ == "Voice files not found. Expected "@ + voices_dir@ + "."@,
{
    let mut m = joined("Voice files not found. Expected ", voices_dir);
    m.append(".");
    m
}

/// The error for a model directory without a `voices` directory: a `NotFound`
/// failure carrying `voices_not_found_message(voices_dir)`.
pub fn voices_not_found(voices_dir: &str) -> (e: KokoroError)
    ensures
        e@ == KokoroErrorView::Io(
            IoFailureView::NotFound("Voice files not found. Expected "@ + voices_dir@ + "."@),
        ),
{
    KokoroError::Io(IoFailure::NotFound(voices_not_found_message(voices_dir)))
}

impl VoiceStore {
    /// Parses the contents of the voice file for `name` and stores it.
    pub fn add_voice_file(&mut self, name: String, data: &[u8]) -> (res: Result<(), KokoroError>)
        ensures
            voice_data_ok(data@.len()) ==> res is Ok && exists|words: Seq<u32>|
                words_of(data@, words) && final(self)@ == old(self)@.insert(name@, words),
            !voice_data_ok(data@.len()) ==> (res matches Err(e) && final(self)@ == old(self)@
                && e@ == KokoroErrorView::VoiceParse(
                if data@.len() % 4 != 0 {
                    byte_length_message(name@, data@.len())
                } else {
                    float_count_message(name@, data@.len() / 4)
                },
            )),
    {
        match parse_raw_f32_styles(data, name.as_str()) {
            Ok(words) => {
                proof {
                    vstd::arithmetic::div_mod::lemma_fundamental_div_mod(data@.len() as int, 4);
                    vstd::arithmetic::div_mod::lemma_fundamental_div_mod(
                        (data@.len() / 4) as int,
                        256,
                    );
                }
                self.insert(name, words);
                Ok(())
            },
            Err(e) => Err(e),
        }
    }

    /// Ends loading from `voices_dir`: a directory that gave no voice is an error.
    pub fn finish_loading(self, voices_dir: &str) -> (res: Result<VoiceStore, KokoroError>)
        ensures
            self@ != Map::<Seq<char>, Seq<u32>>::empty() ==> (res matches Ok(s) && s@ == self@),
            self@ == Map::<Seq<char>, Seq<u32>>::empty() ==> (res matches Err(e) && e@
                == KokoroErrorView::VoiceParse("No .bin voice files found in "@ + voices_dir@)),
    {
        if self.is_empty() {
            Err(KokoroError::VoiceParse(joined("No .bin voice files found in ", voices_dir)))
        } else {
            Ok(self)
        }
    }
}

/// The voice names that a directory listing offers, in listing order.
pub open spec fn bin_voice_names(entries: Seq<VoiceFileEntry>) -> Seq<Seq<char>>
    decreases entries.len(),
{
    if entries.len() == 0 {
        Seq::empty()
    } else {
        let rest = bin_voice_names(entries.drop_last());
        let e = entries.last();
        if names_voice(e) {
            rest.push(e.stem->Some_0@)
        } else {
            rest
        }
    }
}

/// The voice names of the `.bin` files in a directory listing; an error
/// if there is none.
fn bin_names(voices_dir: &str, entries: &Vec<VoiceFileEntry>) -> (res: Result<
    Vec<String>,
    TtsError,
>)
    ensures
        bin_voice_names(entries@).len() > 0 ==> (res matches Ok(names) && names@.map_values(
            |n: String| n@,
        ) == bin_voice_names(entries@)),
        bin_voice_names(entries@).len() == 0 ==> (res matches Err(e) && e@
            == TtsErrorView::BackendLoad("No .bin voice files found in "@ + voices_dir@)),
{
    let mut names: Vec<String> = Vec::new();
    let mut i: usize = 0;
    while i < entries.len()
        invariant
            i <= entries@.len(),
            names@.map_values(|n: String| n@) == bin_voice_names(entries@.take(i as int)),
        decreases entries@.len() - i,
    {
        let e = &entries[i];
        proof {
            assert(entries@.take(i + 1).drop_last() =~= entries@.take(i as int));
        }
        let ghost before = names@;
        let is_bin = match &e.extension {
            Some(x) => str_eq(x.as_str(), "bin"),
            None => false,
        };
        if is_bin {
            match &e.stem {
                Some(st) => {
                    if !st.as_str().is_empty() {
                        names.push(st.clone());
                        proof {
                            assert(names@.map_values(|n: String| n@) =~= before.map_values(
                                |n: String| n@,
                            ).push(st@));
                        }
                    }
                },
                None => {},
            }
        }
        i = i + 1;
    }
    assert(entries@.take(entries@.len() as int) =~= entries@);
    if names.len() == 0 {
        Err(TtsError::BackendLoad(joined("No .bin voice files found in ", voices_dir)))
    } else {
        Ok(names)
    }
}

// ---------------------------------------------------------------------------
// Languages
// ---------------------------------------------------------------------------

/// The language of a voice, from the first two bytes of its name.
pub open spec fn language_of(b: Seq<u8>) -> Seq<char> {
    if b.len() < 2 {
        "English (US)"@
    } else {
        let (c, g) = (b[0], b[1]);
        if (c == 0x62 && (g == 0x66 || g == 0x6d)) {
            "English (GB)"@
        } else if c == 0x65 && (g == 0x66 || g == 0x6d) {
            "Spanish"@
        } else if c == 0x66 && g == 0x66 {
            "French"@
        } else if c == 0x68 && (g == 0x66 || g == 0x6d) {
            "Hindi"@
        } else if c == 0x69 && (g == 0x66 || g == 0x6d) {
            "Italian"@
        } else if c == 0x6a && (g == 0x66 || g == 0x6d) {
            "Japanese"@
        } else if c == 0x70 && (g == 0x66 || g == 0x6d) {
            "Portuguese (Brazil)"@
        } else if c == 0x7a && (g == 0x66 || g == 0x6d) {
            "Mandarin Chinese"@
        } else {
            "English (US)"@
        }
    }
}

/// Voice names start with a two-letter code (`af`, `bm`, `zf`, ...) whose first
/// letter gives the language; names without a known code are English (US).
///
/// The name is cut after its second byte, which must end a character.
pub fn voice_language(voice: &str) -> (lang: &'static str)
    requires
        is_char_boundary(voice.spec_bytes(), if voice.spec_bytes().len() < 2 {
            voice.spec_bytes().len() as int
        } else {
            2
        }),
    ensures
        lang@ == language_of(voice.spec_bytes()),
{
    let b = voice.as_bytes();
    if b.len() < 2 {
        return "English (US)";
    }
    let c = b[0];
    let g = b[1];
    let second_ok = g == 0x66 || g == 0x6d;
    if c == 0x62 && second_ok {
        "English (GB)"
    } else if c == 0x65 && second_ok {
        "Spanish"
    } else if c == 0x66 && g == 0x66 {
        "French"
    } else if c == 0x68 && second_ok {
        "Hindi"
    } else if c == 0x69 && second_ok {
        "Italian"
    } else if c == 0x6a && second_ok {
        "Japanese"
    } else if c == 0x70 && second_ok {
        "Portuguese (Brazil)"
    } else if c == 0x7a && second_ok {
        "Mandarin Chinese"
    } else {
        "English (US)"
    }
}

/// The name can be cut after its second byte (or is shorter).
pub open spec fn language_code_readable(name: Seq<char>) -> bool {
    let b = encode_utf8(name);
    is_char_boundary(b, if b.len() < 2 { b.len() as int } else { 2 })
}

proof fn lemma_ascii_byte(s: u32)
    by (bit_vector)
    requires
        s <= 0x7F,
    ensures
        ((s & 0x7F) as u8) as u32 == s,
{
}

proof fn lemma_leading_bytes(s: u32)
    by (bit_vector)
    ensures
        0xC0u8 | ((s >> 6) & 0x1F) as u8 >= 0xC0u8,
        0xE0u8 | ((s >> 12) & 0x0F) as u8 >= 0xC0u8,
        0xF0u8 | ((s >> 18) & 0x7) as u8 >= 0xC0u8,
{
}

proof fn lemma_same_code_point(c: char, d: char)
    requires
        c as u32 == d as u32,
    ensures
        c == d,
{
    char_u32_cast(c, c as u32);
    char_u32_cast(d, d as u32);
}

/// The first byte of a text's UTF-8 encoding: the character itself for
/// ASCII, a leading byte of `0xC0` or more otherwise.
proof fn lemma_first_encoded_byte(chars: Seq<char>)
    requires
        chars.len() >= 1,
    ensures
        (chars[0] as u32) <= 0x7F ==> {
            &&& encode_utf8(chars).len() == 1 + encode_utf8(chars.drop_first()).len()
            &&& encode_utf8(chars)[0] as u32 == chars[0] as u32
            &&& encode_utf8(chars).drop_first() == encode_utf8(chars.drop_first())
        },
        (chars[0] as u32) > 0x7F ==> encode_utf8(chars).len() >= 2 && encode_utf8(chars)[0] >= 0xC0,
{
    let s = chars[0] as u32;
    let head = encode_scalar(s);
    let rest = encode_utf8(chars.drop_first());
    assert(encode_utf8(chars) == head + rest);
    if s <= 0x7F {
        lemma_ascii_byte(s);
        assert((head + rest).drop_first() =~= rest);
    } else {
        lemma_leading_bytes(s);
        assert((head + rest)[0] == head[0]);
    }
}

/// The two-letter codes that start the names of the voices.
pub open spec fn known_language_code(code: Seq<char>) -> bool {
    ||| code == "af"@
    ||| code == "am"@
    ||| code == "bf"@
    ||| code == "bm"@
    ||| code == "ef"@
    ||| code == "em"@
    ||| code == "ff"@
    ||| code == "hf"@
    ||| code == "hm"@
    ||| code == "if"@
    ||| code == "im"@
    ||| code == "jf"@
    ||| code == "jm"@
    ||| code == "pf"@
    ||| code == "pm"@
    ||| code == "zf"@
    ||| code == "zm"@
}

/// A voice's language follows the two-letter code that starts its name:
/// `af`/`am` English (US), `bf`/`bm` English (GB), `ef`/`em` Spanish, `ff`
/// French, `hf`/`hm` Hindi, `if`/`im` Italian, `jf`/`jm` Japanese, `pf`/`pm`
/// Portuguese (Brazil), `zf`/`zm` Mandarin Chinese. A name that starts with
/// none of these codes, or is shorter than two characters, is English (US).
pub proof fn lemma_voice_language_by_code(name: Seq<char>)
    ensures
        name.len() >= 2 ==> {
            let code = name.take(2);
            let lang = language_of(encode_utf8(name));
            &&& (code == "af"@ || code == "am"@) ==> lang == "English (US)"@
            &&& (code == "bf"@ || code == "bm"@) ==> lang == "English (GB)"@
            &&& (code == "ef"@ || code == "em"@) ==> lang == "Spanish"@
            &&& code == "ff"@ ==> lang == "French"@
            &&& (code == "hf"@ || code == "hm"@) ==> lang == "Hindi"@
            &&& (code == "if"@ || code == "im"@) ==> lang == "Italian"@
            &&& (code == "jf"@ || code == "jm"@) ==> lang == "Japanese"@
            &&& (code == "pf"@ || code == "pm"@) ==> lang == "Portuguese (Brazil)"@
            &&& (code == "zf"@ || code == "zm"@) ==> lang == "Mandarin Chinese"@
            &&& !known_language_code(code) ==> lang == "English (US)"@
        },
        name.len() < 2 ==> language_of(encode_utf8(name)) == "English (US)"@,
{
    reveal_strlit("af");
    reveal_strlit("am");
    reveal_strlit("bf");
    reveal_strlit("bm");
    reveal_strlit("ef");
    reveal_strlit("em");
    reveal_strlit("ff");
    reveal_strlit("hf");
    reveal_strlit("hm");
    reveal_strlit("if");
    reveal_strlit("im");
    reveal_strlit("jf");
    reveal_strlit("jm");
    reveal_strlit("pf");
    reveal_strlit("pm");
    reveal_strlit("zf");
    reveal_strlit("zm");
    assert("af"@ =~= seq!['a', 'f']);
    assert("am"@ =~= seq!['a', 'm']);
    assert("bf"@ =~= seq!['b', 'f']);
    assert("bm"@ =~= seq!['b', 'm']);
    assert("ef"@ =~= seq!['e', 'f']);
    assert("em"@ =~= seq!['e', 'm']);
    assert("ff"@ =~= seq!['f', 'f']);
    assert("hf"@ =~= seq!['h', 'f']);
    assert("hm"@ =~= seq!['h', 'm']);
    assert("if"@ =~= seq!['i', 'f']);
    assert("im"@ =~= seq!['i', 'm']);
    assert("jf"@ =~= seq!['j', 'f']);
    assert("jm"@ =~= seq!['j', 'm']);
    assert("pf"@ =~= seq!['p', 'f']);
    assert("pm"@ =~= seq!['p', 'm']);
    assert("zf"@ =~= seq!['z', 'f']);
    assert("zm"@ =~= seq!['z', 'm']);
    let b = encode_utf8(name);
    if name.len() >= 2 {
        lemma_first_encoded_byte(name);
        lemma_first_encoded_byte(name.drop_first());
        let code = name.take(2);
        assert(code =~= seq![name[0], name[1]]);
        if (name[0] as u32) <= 0x7F {
            assert(b[1] == encode_utf8(name.drop_first())[0]);
            assert(name.drop_first()[0] == name[1]);
        }
        if name[0] as u32 == 'a' as u32 {
            lemma_same_code_point(name[0], 'a');
        }
        if name[0] as u32 == 'b' as u32 {
            lemma_same_code_point(name[0], 'b');
        }
        if name[0] as u32 == 'e' as u32 {
            lemma_same_code_point(name[0], 'e');
        }
        if name[0] as u32 == 'f' as u32 {
            lemma_same_code_point(name[0], 'f');
        }
        if name[0] as u32 == 'h' as u32 {
            lemma_same_code_point(name[0], 'h');
        }
        if name[0] as u32 == 'i' as u32 {
            lemma_same_code_point(name[0], 'i');
        }
        if name[0] as u32 == 'j' as u32 {
            lemma_same_code_point(name[0], 'j');
        }
        if name[0] as u32 == 'p' as u32 {
            lemma_same_code_point(name[0], 'p');
        }
        if name[0] as u32 == 'z' as u32 {
            lemma_same_code_point(name[0], 'z');
        }
        if name[1] as u32 == 'f' as u32 {
            lemma_same_code_point(name[1], 'f');
        }
        if name[1] as u32 == 'm' as u32 {
            lemma_same_code_point(name[1], 'm');
        }
    } else if name.len() == 1 {
        lemma_first_encoded_byte(name);
        assert(name.drop_first().len() == 0);
        assert(encode_utf8(name.drop_first()).len() == 0);
    } else {
        assert(b.len() == 0);
    }
}

/// Describes each named voice: its language and the `kokoro` backend.
pub fn voice_infos(names: Vec<String>) -> (infos: Vec<VoiceInfo>)
    requires
        forall|i: int| 0 <= i < names@.len() ==> language_code_readable(#[trigger] names@[i]@),
    ensures
        infos@.len() == names@.len(),
        forall|i: int|
            0 <= i < names@.len() ==> {
                &&& (#[trigger] infos@[i]).name@ == names@[i]@
                &&& infos@[i].language@ == language_of(encode_utf8(names@[i]@))
                &&& infos@[i].backend@ == "kokoro"@
            },
{
    let mut infos: Vec<VoiceInfo> = Vec::new();
    let mut i: usize = 0;
    while i < names.len()
        invariant
            i <= names@.len(),
            infos@.len() == i,
            forall|i: int| 0 <= i < names@.len() ==> language_code_readable(#[trigger] names@[i]@),
            forall|j: int|
                0 <= j < i ==> {
                    &&& (#[trigger] infos@[j]).name@ == names@[j]@
                    &&& infos@[j].language@ == language_of(encode_utf8(names@[j]@))
                    &&& infos@[j].backend@ == "kokoro"@
                },
        decreases names@.len() - i,
    {
        let name = names[i].clone();
        let language = voice_language(name.as_str()).to_owned();
        infos.push(VoiceInfo { name, language, backend: "kokoro".to_owned() });
        i = i + 1;
    }
    infos
}

/// The voice names of the `.bin` files in the listing of `voices_dir`, in
/// listing order; a failed listing gives its I/O error back unchanged, and a
/// listing without voices is an error.
pub fn list_bin_voice_names(
    voices_dir: &str,
    listing: Result<Vec<VoiceFileEntry>, std::io::Error>,
) -> (res: Result<Vec<String>, TtsError>)
    ensures
        listing is Err ==> (res is Err && res->Err_0 == TtsError::Io(listing->Err_0)),
        (listing matches Ok(entries) && bin_voice_names(entries@).len() > 0) ==> (res matches Ok(
            names,
        ) && names@.map_values(|n: String| n@) == bin_voice_names(listing->Ok_0@)),
        (listing matches Ok(entries) && bin_voice_names(entries@).len() == 0) ==> (res matches Err(
            e,
        ) && e@ == TtsErrorView::BackendLoad("No .bin voice files found in "@ + voices_dir@)),
{
    match listing {
        Err(e) => Err(TtsError::Io(e)),
        Ok(entries) => bin_names(voices_dir, &entries),
    }
}

/// The directory of voice files of the model in `model_dir`: `<model_dir>/voices`.
pub fn voices_dir(model_dir: &str) -> (dir: String)
    ensures
        dir@ == joined_path(model_dir@, "voices"@),
{
    join_path(model_dir, "voices")
}

/// The message for a missing voice directory.
pub fn voice_directory_missing_message(voices_dir: &str) -> (m: String)
    ensures
        m@ == "Voice directory not found. Expected "@ + voices_dir@ + "."@,
{
    let mut m = joined("Voice directory not found. Expected ", voices_dir);
    m.append(".");
    m
}

/// All voices a model's voice directory offers, with their languages.
///
/// `listing` is `None` when `voices_dir` is no directory, else the outcome of
/// listing it. A listing error is given back unchanged.
pub fn list_available_voices(
    voices_dir: &str,
    listing: Option<Result<Vec<VoiceFileEntry>, std::io::Error>>,
) -> (res: Result<Vec<VoiceInfo>, TtsError>)
    requires
        listing matches Some(Ok(entries)) ==> forall|i: int|
            0 <= i < bin_voice_names(entries@).len() ==> language_code_readable(
                #[trigger] bin_voice_names(entries@)[i],
            ),
    ensures
        listing is None ==> (res matches Err(e) && e@ == TtsErrorView::BackendLoad(
            "Voice directory not found. Expected "@ + voices_dir@ + "."@,
        )),
        (listing matches Some(Err(err))) ==> (res is Err && res->Err_0 == TtsError::Io(
            listing->Some_0->Err_0,
        )),
        (listing matches Some(Ok(entries)) && bin_voice_names(entries@).len() == 0) ==> (res matches Err(
            e,
        ) && e@ == TtsErrorView::BackendLoad("No .bin voice files found in "@ + voices_dir@)),
        (listing matches Some(Ok(entries)) && bin_voice_names(entries@).len() > 0) ==> (res matches Ok(
            infos,
        ) && infos@.len() == bin_voice_names(listing->Some_0->Ok_0@).len() && forall|i: int|
            0 <= i < infos@.len() ==> {
                let name = bin_voice_names(listing->Some_0->Ok_0@)[i];
                &&& (#[trigger] infos@[i]).name@ == name
                &&& infos@[i].language@ == language_of(encode_utf8(name))
                &&& infos@[i].backend@ == "kokoro"@
            }),
{
    match listing {
        None => Err(TtsError::BackendLoad(voice_directory_missing_message(voices_dir))),
        Some(l) => {
            let ghost entries = l->Ok_0@;
            match list_bin_voice_names(voices_dir, l) {
                Err(e) => Err(e),
                Ok(names) => {
                    proof {
                        assert forall|i: int| 0 <= i < names@.len() implies language_code_readable(
                            #[trigger] names@[i]@,
                        ) by {
                            assert(names@.map_values(|n: String| n@)[i] == names@[i]@);
                        }
                    }
                    let infos = voice_infos(names);
                    proof {
                        assert forall|i: int| 0 <= i < infos@.len() implies (#[trigger] infos@[i]).name@
                            == bin_voice_names(entries)[i] by {
                            assert(names@.map_values(|n: String| n@)[i] == names@[i]@);
                        }
                    }
                    Ok(infos)
                },
            }
        },
    }
}

// ---------------------------------------------------------------------------
// The whole loader
// ---------------------------------------------------------------------------

/// One entry of a voice directory, with the file's contents where the loader
/// reads it (a `.bin` file that names a voice).
pub struct VoiceDirItem {
    pub entry: VoiceFileEntry,
    pub contents: Option<Result<Vec<u8>, std::io::Error>>,
}

/// The little-endian 32-bit words of `data`.
pub open spec fn le_words(data: Seq<u8>) -> Seq<u32> {
    Seq::new(data.len() / 4, |k: int| le_word(data, 4 * k) as u32)
}

/// How loading a directory listing goes: every voice loaded, or stopped at the
/// entry with this position.
pub enum VoiceLoadView {
    Loaded(Map<Seq<char>, Seq<u32>>),
    StoppedAt(int),
}

pub open spec fn item_stem(item: Result<VoiceDirItem, std::io::Error>) -> Seq<char> {
    item->Ok_0.entry.stem->Some_0@
}

pub open spec fn item_data(item: Result<VoiceDirItem, std::io::Error>) -> Seq<u8> {
    item->Ok_0.contents->Some_0->Ok_0@
}

/// Loading the entries from position `i` on into the voices `m` loaded so far.
pub open spec fn load_from(
    items: Seq<Result<VoiceDirItem, std::io::Error>>,
    i: int,
    m: Map<Seq<char>, Seq<u32>>,
) -> VoiceLoadView
    decreases items.len() - i,
{
    if i < 0 || i >= items.len() {
        VoiceLoadView::Loaded(m)
    } else {
        match items[i] {
            Err(_) => VoiceLoadView::StoppedAt(i),
            Ok(it) => if !is_bin_file(it.entry) {
                load_from(items, i + 1, m)
            } else if !names_voice(it.entry) {
                VoiceLoadView::StoppedAt(i)
            } else {
                match it.contents {
                    Some(Ok(data)) => if voice_data_ok(data@.len()) {
                        load_from(items, i + 1, m.insert(item_stem(items[i]), le_words(data@)))
                    } else {
                        VoiceLoadView::StoppedAt(i)
                    },
                    _ => VoiceLoadView::StoppedAt(i),
                }
            },
        }
    }
}

/// The error that loading gives when it stops at `item`.
pub open spec fn stop_error(item: Result<VoiceDirItem, std::io::Error>, e: KokoroError) -> bool {
    match item {
        Err(err) => e == KokoroError::Io(IoFailure::Os(err)),
        Ok(it) => if !names_voice(it.entry) {
            e@ == KokoroErrorView::VoiceParse("Invalid voice file name: "@ + it.entry.display@)
        } else {
            match it.contents {
                Some(Ok(data)) => e@ == KokoroErrorView::VoiceParse(
                    if data@.len() % 4 != 0 {
                        byte_length_message(item_stem(item), data@.len())
                    } else {
                        float_count_message(item_stem(item), data@.len() / 4)
                    },
                ),
                Some(Err(_)) => {
                    let p = "Failed to read "@ + it.entry.display@ + ": "@;
                    e@ matches KokoroErrorView::VoiceParse(msg) && msg.len() >= p.len() && msg.take(
                        p.len() as int,
                    ) == p
                },
                None => false,
            }
        },
    }
}

/// The words that `parse_raw_f32_styles` gives for a file are its
/// little-endian words, `le_words`.
pub proof fn lemma_words_of_unique(data: Seq<u8>, words: Seq<u32>)
    requires
        words_of(data, words),
    ensures
        words == le_words(data),
{
    assert forall|k: int| 0 <= k < words.len() implies words[k] == le_words(data)[k] by {
        assert(words[k] as int == le_word(data, 4 * k));
    }
    assert(words =~= le_words(data));
}

/// Every entry that names a voice comes with the file's contents.
pub open spec fn contents_given(items: Seq<Result<VoiceDirItem, std::io::Error>>) -> bool {
    forall|j: int|
        0 <= j < items.len() ==> (#[trigger] items[j] matches Ok(it) ==> (names_voice(it.entry)
            ==> it.contents is Some))
}

impl VoiceStore {
    /// Loads the voices of a directory from its listing, entry by entry: other
    /// files are skipped, the first failure stops the load, and a directory
    /// that gives no voice is an error.
    pub fn load_raw_bin_dir(voices_dir: &str, items: Vec<Result<VoiceDirItem, std::io::Error>>) -> (res:
        Result<VoiceStore, KokoroError>)
        requires
            contents_given(items@),
        ensures
            load_from(items@, 0, Map::empty()) matches VoiceLoadView::Loaded(m) ==> (m != Map::<
                Seq<char>,
                Seq<u32>,
            >::empty() ==> (res matches Ok(s) && s@ == m)) && (m == Map::<Seq<char>, Seq<u32>>::empty()
                ==> (res matches Err(e) && e@ == KokoroErrorView::VoiceParse(
                "No .bin voice files found in "@ + voices_dir@,
            ))),
            load_from(items@, 0, Map::empty()) matches VoiceLoadView::StoppedAt(k) ==> (res is Err
                && 0 <= k < items@.len() && stop_error(items@[k], res->Err_0)),
    {
        let ghost all = items@;
        let n = items.len();
        let mut rest = items;
        let mut store = VoiceStore::new();
        let mut i: usize = 0;
        while rest.len() > 0
            invariant
                all == items@,
                all.len() == n,
                contents_given(all),
                i + rest@.len() == n,
                rest@ == all.skip(i as int),
                load_from(all, 0, Map::empty()) == load_from(all, i as int, store@),
            decreases rest@.len(),
        {
            let item = rest.remove(0);
            proof {
                assert(item == all[i as int]);
                assert(rest@ =~= all.skip(i + 1));
            }
            match item {
                Err(err) => {
                    return Err(KokoroError::Io(IoFailure::Os(err)));
                },
                Ok(it) => {
                    match voice_file_name(&it.entry) {
                        Err(e) => return Err(e),
                        Ok(None) => {},
                        Ok(Some(name)) => {
                            match it.contents {
                                None => {
                                    // the caller gives the contents of every voice file
                                    proof {
                                        assert(all[i as int] matches Ok(x) && names_voice(x.entry));
                                        assert(false);
                                    }
                                    return Err(KokoroError::VoiceParse(name));
                                },
                                Some(Err(e)) => {
                                    let detail = crate::io_error_text(&e);
                                    let err = voice_read_failure(it.entry.display.as_str(), detail.as_str());
                                    proof {
                                        let p = "Failed to read "@ + it.entry.display@ + ": "@;
                                        assert(("Failed to read "@ + it.entry.display@ + ": "@ + detail@).take(
                                            p.len() as int,
                                        ) =~= p);
                                    }
                                    return Err(err);
                                },
                                Some(Ok(data)) => {
                                    let ghost before = store@;
                                    match store.add_voice_file(name, data.as_slice()) {
                                        Err(e) => return Err(e),
                                        Ok(()) => {
                                            proof {
                                                let w = choose|w: Seq<u32>|
                                                    words_of(data@, w) && store@ == before.insert(
                                                        item_stem(all[i as int]),
                                                        w,
                                                    );
                                                lemma_words_of_unique(data@, w);
                                            }
                                        },
                                    }
                                },
                            }
                        },
                    }
                },
            }
            i = i + 1;
        }
        store.finish_loading(voices_dir)
    }

    /// Loads the voices in `voices_dir`; `listing` is `None` when it is no
    /// directory (a `NotFound` failure), else its entries.
    pub fn load(voices_dir: &str, listing: Option<Vec<Result<VoiceDirItem, std::io::Error>>>) -> (res:
        Result<VoiceStore, KokoroError>)
        requires
            listing matches Some(items) ==> contents_given(items@),
        ensures
            listing is None ==> (res matches Err(e) && e@ == KokoroErrorView::Io(
                IoFailureView::NotFound("Voice files not found. Expected "@ + voices_dir@ + "."@),
            )),
            listing matches Some(items) ==> {
                &&& load_from(items@, 0, Map::empty()) matches VoiceLoadView::Loaded(m) ==> (m
                    != Map::<Seq<char>, Seq<u32>>::empty() ==> (res matches Ok(s) && s@ == m)) && (m
                    == Map::<Seq<char>, Seq<u32>>::empty() ==> (res matches Err(e) && e@
                    == KokoroErrorView::VoiceParse("No .bin voice files found in "@ + voices_dir@)))
                &&& load_from(items@, 0, Map::empty()) matches VoiceLoadView::StoppedAt(k) ==> (res is Err
                    && 0 <= k < items@.len() && stop_error(items@[k], res->Err_0))
            },
    {
        match listing {
            None => Err(voices_not_found(voices_dir)),
            Some(items) => VoiceStore::load_raw_bin_dir(voices_dir, items),
        }
    }
}

/// Entry `j` is a `.bin` file.
pub open spec fn bin_at(items: Seq<Result<VoiceDirItem, std::io::Error>>, j: int) -> bool {
    items[j] matches Ok(it) && is_bin_file(it.entry)
}

/// From position `i` on every entry is readable, and every `.bin` file names a
/// voice and holds whole style vectors.
pub open spec fn all_good_from(items: Seq<Result<VoiceDirItem, std::io::Error>>, i: int) -> bool {
    forall|j: int|
        i <= j < items.len() ==> (#[trigger] items[j] matches Ok(it) && (is_bin_file(it.entry)
            ==> names_voice(it.entry) && (it.contents matches Some(Ok(d)) && voice_data_ok(
            d@.len(),
        ))))
}

/// No `.bin` file after position `j` has the stem `k`.
pub open spec fn last_with_stem(items: Seq<Result<VoiceDirItem, std::io::Error>>, j: int, k: Seq<char>) -> bool {
    forall|j2: int| j < j2 < items.len() && bin_at(items, j2) ==> item_stem(#[trigger] items[j2]) != k
}

proof fn lemma_load_good_from(
    items: Seq<Result<VoiceDirItem, std::io::Error>>,
    i: int,
    m: Map<Seq<char>, Seq<u32>>,
)
    requires
        0 <= i <= items.len(),
        all_good_from(items, i),
    ensures
        load_from(items, i, m) is Loaded,
        forall|k: Seq<char>|
            #[trigger] load_from(items, i, m)->Loaded_0.contains_key(k) <==> (m.contains_key(k)
                || exists|j: int| i <= j < items.len() && bin_at(items, j) && item_stem(items[j]) == k),
        forall|j: int|
            i <= j < items.len() && #[trigger] bin_at(items, j) && last_with_stem(items, j, item_stem(items[j]))
                ==> load_from(items, i, m)->Loaded_0[item_stem(items[j])] == le_words(item_data(items[j])),
        forall|k: Seq<char>|
            m.contains_key(k) && last_with_stem(items, i - 1, k) ==> #[trigger] load_from(
                items,
                i,
                m,
            )->Loaded_0[k] == m[k],
    decreases items.len() - i,
{
    if i < items.len() {
        assert(items[i] matches Ok(it));
        let it = items[i]->Ok_0;
        if !is_bin_file(it.entry) {
            lemma_load_good_from(items, i + 1, m);
            let m2 = load_from(items, i + 1, m)->Loaded_0;
            assert forall|k: Seq<char>| m.contains_key(k) && last_with_stem(items, i - 1, k) implies #[trigger] m2[k] == m[k] by {
                assert(last_with_stem(items, i, k));
            }
        } else {
            let s = item_stem(items[i]);
            let w = le_words(item_data(items[i]));
            let m1 = m.insert(s, w);
            lemma_load_good_from(items, i + 1, m1);
            let m2 = load_from(items, i + 1, m1)->Loaded_0;
            assert(load_from(items, i, m) == load_from(items, i + 1, m1));
            assert forall|k: Seq<char>| #[trigger] m2.contains_key(k) <==> (m.contains_key(k) || exists|j: int|
                i <= j < items.len() && bin_at(items, j) && item_stem(items[j]) == k) by {
                if k == s {
                    assert(bin_at(items, i));
                }
                if exists|j: int| i <= j < items.len() && bin_at(items, j) && item_stem(items[j]) == k {
                    let j = choose|j: int| i <= j < items.len() && bin_at(items, j) && item_stem(items[j]) == k;
                    if j > i {
                        assert(exists|j: int| i + 1 <= j < items.len() && bin_at(items, j) && item_stem(items[j]) == k);
                    }
                }
            }
            assert forall|j: int|
                i <= j < items.len() && #[trigger] bin_at(items, j) && last_with_stem(items, j, item_stem(items[j]))
                implies m2[item_stem(items[j])] == le_words(item_data(items[j])) by {
                if j == i {
                    assert(m1.contains_key(s) && last_with_stem(items, i, s));
                }
            }
            assert forall|k: Seq<char>| m.contains_key(k) && last_with_stem(items, i - 1, k) implies #[trigger] m2[k] == m[k] by {
                assert(bin_at(items, i));
                assert(k != s);
                assert(last_with_stem(items, i, k));
            }
        }
    }
}

/// Loading a directory whose entries are all readable and whose `.bin` files
/// all name voices and hold whole style vectors loads exactly the stems of the
/// `.bin` files, each with the little-endian words of its (last) file; other
/// files have no effect.
pub proof fn lemma_load_reads_every_voice(items: Seq<Result<VoiceDirItem, std::io::Error>>)
    requires
        all_good_from(items, 0),
    ensures
        load_from(items, 0, Map::empty()) is Loaded,
        forall|k: Seq<char>|
            #[trigger] load_from(items, 0, Map::empty())->Loaded_0.contains_key(k) <==> exists|j: int|
                0 <= j < items.len() && bin_at(items, j) && item_stem(items[j]) == k,
        forall|j: int|
            0 <= j < items.len() && #[trigger] bin_at(items, j) && last_with_stem(items, j, item_stem(items[j]))
                ==> load_from(items, 0, Map::empty())->Loaded_0[item_stem(items[j])] == le_words(
                item_data(items[j]),
            ),
{
    lemma_load_good_from(items, 0, Map::empty());
}

/// The `.bin` files of the listing have pairwise different stems.
pub open spec fn distinct_stems(items: Seq<Result<VoiceDirItem, std::io::Error>>) -> bool {
    forall|j1: int, j2: int|
        0 <= j1 < j2 < items.len() && bin_at(items, j1) && bin_at(items, j2) ==> item_stem(
            #[trigger] items[j1],
        ) != item_stem(#[trigger] items[j2])
}

/// Loading a directory whose entries are all readable, whose `.bin` files all
/// name voices with whole style vectors, and whose stems differ, loads exactly
/// the stems of the `.bin` files, each with the words of its own file.
pub proof fn lemma_load_distinct_voices(items: Seq<Result<VoiceDirItem, std::io::Error>>)
    requires
        all_good_from(items, 0),
        distinct_stems(items),
    ensures
        load_from(items, 0, Map::empty()) is Loaded,
        forall|k: Seq<char>|
            #[trigger] load_from(items, 0, Map::empty())->Loaded_0.contains_key(k) <==> exists|j: int|
                0 <= j < items.len() && bin_at(items, j) && item_stem(items[j]) == k,
        forall|j: int|
            0 <= j < items.len() && #[trigger] bin_at(items, j) ==> load_from(
                items,
                0,
                Map::empty(),
            )->Loaded_0[item_stem(items[j])] == le_words(item_data(items[j])),
{
    lemma_load_reads_every_voice(items);
    assert forall|j: int| 0 <= j < items.len() && #[trigger] bin_at(items, j) implies load_from(
        items,
        0,
        Map::empty(),
    )->Loaded_0[item_stem(items[j])] == le_words(item_data(items[j])) by {
        assert forall|j2: int| j < j2 < items.len() && bin_at(items, j2) implies item_stem(
            #[trigger] items[j2],
        ) != item_stem(items[j]) by {
            assert(item_stem(items[j]) != item_stem(items[j2]));
        }
        assert(last_with_stem(items, j, item_stem(items[j])));
    }
}

} // verus!
