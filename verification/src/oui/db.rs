//! The OUI table built from the IEEE CSV files: records are cleaned, the
//! first record of a prefix wins, and a MAC address finds the most
//! specific prefix registered for it.

use vstd::prelude::*;
use std::collections::HashMap;
use crate::error::RLanLibError;
use crate::net::{mac_text, MacAddr};
use crate::oui::{opt_oui_view, Oui, OuiData};
use crate::text::{chars_of, string_of};
use crate::cli::text_views;

verus! {

broadcast use vstd::std_specs::hash::group_hash_axioms;

/// `char::is_whitespace`: the characters with the Unicode White_Space
/// property
pub open spec fn is_space(c: char) -> bool {
    ||| ('\u{9}' <= c && c <= '\u{d}')
    ||| c == ' '
    ||| c == '\u{85}'
    ||| c == '\u{a0}'
    ||| c == '\u{1680}'
    ||| ('\u{2000}' <= c && c <= '\u{200a}')
    ||| c == '\u{2028}'
    ||| c == '\u{2029}'
    ||| c == '\u{202f}'
    ||| c == '\u{205f}'
    ||| c == '\u{3000}'
}

/// Whether a character is white space, as `char::is_whitespace` says
pub fn is_whitespace(c: char) -> (b: bool)
    ensures
        b == is_space(c),
{
    ('\u{9}' <= c && c <= '\u{d}') || c == ' ' || c == '\u{85}' || c == '\u{a0}' || c == '\u{1680}' || ('\u{2000}'
        <= c && c <= '\u{200a}') || c == '\u{2028}' || c == '\u{2029}' || c == '\u{202f}' || c == '\u{205f}' || c
        == '\u{3000}'
}

/// Index of the first character at or after `i` that is no white space,
/// or the length
pub open spec fn first_non_space(s: Seq<char>, i: int) -> int
    decreases s.len() - i,
{
    if i < 0 || i >= s.len() {
        s.len() as int
    } else if is_space(s[i]) {
        first_non_space(s, i + 1)
    } else {
        i
    }
}

/// One past the last character before `j` that is no white space, or 0
pub open spec fn end_non_space(s: Seq<char>, j: int) -> int
    decreases j,
{
    if j <= 0 || j > s.len() {
        0
    } else if is_space(s[j - 1]) {
        end_non_space(s, j - 1)
    } else {
        j
    }
}

/// The text without white space at its start and end, as `str::trim`
pub open spec fn trim(s: Seq<char>) -> Seq<char> {
    let a = first_non_space(s, 0);
    if a >= s.len() {
        Seq::empty()
    } else {
        s.subrange(a, end_non_space(s, s.len() as int))
    }
}

/// A field of a CSV record made clean: non-breaking spaces become spaces,
/// and white space at the ends goes
pub open spec fn clean(s: Seq<char>) -> Seq<char> {
    trim(s.map_values(|c: char| if c == '\u{a0}' { ' ' } else { c }))
}

/// The text with ASCII letters in upper case, as `str::to_ascii_uppercase`
pub open spec fn upper(s: Seq<char>) -> Seq<char> {
    s.map_values(|c: char| if 'a' <= c && c <= 'z' { ((c as u32) - 32) as char } else { c })
}

proof fn lemma_first_non_space(s: Seq<char>, i: int)
    requires
        0 <= i <= s.len(),
    ensures
        i <= first_non_space(s, i) <= s.len(),
        forall|k: int| i <= k < first_non_space(s, i) ==> is_space(s[k]),
        first_non_space(s, i) < s.len() ==> !is_space(s[first_non_space(s, i)]),
    decreases s.len() - i,
{
    if i < s.len() && is_space(s[i]) {
        lemma_first_non_space(s, i + 1);
    }
}

proof fn lemma_end_non_space(s: Seq<char>, j: int)
    requires
        0 <= j <= s.len(),
    ensures
        0 <= end_non_space(s, j) <= j,
        forall|k: int| end_non_space(s, j) <= k < j ==> is_space(s[k]),
        end_non_space(s, j) > 0 ==> !is_space(s[end_non_space(s, j) - 1]),
    decreases j,
{
    if j > 0 && is_space(s[j - 1]) {
        lemma_end_non_space(s, j - 1);
    }
}

/// A field made clean, as `clean` says
pub fn clean_string(s: &str) -> (r: Vec<char>)
    ensures
        r@ == clean(s@),
{
    let cs = chars_of(s);
    let n = cs.len();
    let mut replaced: Vec<char> = Vec::new();
    let mut i: usize = 0;
    while i < n
        invariant
            n == cs@.len(),
            cs@ == s@,
            i <= n,
            replaced@ == s@.take(i as int).map_values(|c: char| if c == '\u{a0}' { ' ' } else { c }),
        decreases n - i,
    {
        let c = cs[i];
        replaced.push(if c == '\u{a0}' { ' ' } else { c });
        assert(replaced@ =~= s@.take(i as int + 1).map_values(|c: char| if c == '\u{a0}' { ' ' } else { c }));
        i = i + 1;
    }
    assert(s@.take(n as int) =~= s@);
    let ghost m = s@.map_values(|c: char| if c == '\u{a0}' { ' ' } else { c });
    assert(replaced@ == m);
    let mut a: usize = 0;
    while a < n && is_whitespace(replaced[a])
        invariant
            n == replaced@.len(),
            a <= n,
            replaced@ == m,
            first_non_space(m, 0) == first_non_space(m, a as int),
        decreases n - a,
    {
        a = a + 1;
    }
    proof {
        lemma_first_non_space(m, 0);
    }
    if a == n {
        return Vec::new();
    }
    let mut b: usize = n;
    while b > a && is_whitespace(replaced[b - 1])
        invariant
            n == replaced@.len(),
            a < b <= n,
            replaced@ == m,
            !is_space(m[a as int]),
            end_non_space(m, n as int) == end_non_space(m, b as int),
        decreases b,
    {
        b = b - 1;
    }
    assert(end_non_space(m, b as int) == b) by {
        if b == a {
        }
    }
    let mut r: Vec<char> = Vec::new();
    let mut k: usize = a;
    while k < b
        invariant
            n == replaced@.len(),
            a <= k <= b <= n,
            replaced@ == m,
            r@ == m.subrange(a as int, k as int),
        decreases b - k,
    {
        r.push(replaced[k]);
        assert(r@ =~= m.subrange(a as int, k as int + 1));
        k = k + 1;
    }
    r
}

/// Upper-cases the ASCII letters of the text
pub fn to_ascii_upper(v: &Vec<char>) -> (r: Vec<char>)
    ensures
        r@ == upper(v@),
{
    let mut r: Vec<char> = Vec::new();
    let mut i: usize = 0;
    while i < v.len()
        invariant
            i <= v@.len(),
            r@ == upper(v@.take(i as int)),
        decreases v@.len() - i,
    {
        let c = v[i];
        let u = if 'a' <= c && c <= 'z' { ((c as u8) - 32) as char } else { c };
        r.push(u);
        assert(r@ =~= upper(v@.take(i as int + 1)));
        i = i + 1;
    }
    assert(v@.take(i as int) =~= v@);
    r
}

/// The value of an upper-case hex digit
pub open spec fn hex_digit(c: char) -> Option<int> {
    if '0' <= c && c <= '9' {
        Some((c as int) - ('0' as int))
    } else if 'A' <= c && c <= 'F' {
        Some((c as int) - ('A' as int) + 10)
    } else {
        None
    }
}

/// The value of a text of upper-case hex digits, none when a character is
/// no such digit
pub open spec fn hex_value(s: Seq<char>) -> Option<int>
    decreases s.len(),
{
    if s.len() == 0 {
        Some(0)
    } else {
        match (hex_value(s.drop_last()), hex_digit(s.last())) {
            (Some(v), Some(d)) => Some(v * 16 + d),
            _ => None,
        }
    }
}

/// The key of an OUI prefix in the table: an MA-L (6 hex digits), MA-M (7)
/// or MA-S (9) prefix in upper case, keyed by its length and value; other
/// texts are no prefix a MAC address can have, and have no key
pub open spec fn oui_key(s: Seq<char>) -> Option<u64> {
    if s.len() == 6 || s.len() == 7 || s.len() == 9 {
        match hex_value(s) {
            Some(v) => Some((s.len() * 0x10_0000_0000 + v) as u64),
            None => None,
        }
    } else {
        None
    }
}

/// Sixteen to the power `n`
pub open spec fn pow16(n: nat) -> int
    decreases n,
{
    if n == 0 {
        1
    } else {
        16 * pow16((n - 1) as nat)
    }
}

proof fn lemma_pow16_bound(n: nat)
    requires
        n <= 9,
    ensures
        1 <= pow16(n) <= 0x10_0000_0000,
    decreases n,
{
    if n > 0 {
        lemma_pow16_bound((n - 1) as nat);
        assert(pow16(0) == 1);
        assert(pow16(1) == 16);
        assert(pow16(2) == 256);
        assert(pow16(3) == 0x1000);
        assert(pow16(4) == 0x1_0000);
        assert(pow16(5) == 0x10_0000);
        assert(pow16(6) == 0x100_0000);
        assert(pow16(7) == 0x1000_0000);
        assert(pow16(8) == 0x1_0000_0000);
        assert(pow16(9) == 0x10_0000_0000);
        if n < 9 {
            lemma_pow16_monotone(n, 9);
        }
    }
}

proof fn lemma_pow16_positive(a: nat)
    ensures
        1 <= pow16(a),
    decreases a,
{
    if a > 0 {
        lemma_pow16_positive((a - 1) as nat);
    }
}

proof fn lemma_pow16_monotone(a: nat, b: nat)
    requires
        a <= b,
    ensures
        1 <= pow16(a) <= pow16(b),
    decreases b,
{
    lemma_pow16_positive(a);
    if b > a {
        lemma_pow16_monotone(a, (b - 1) as nat);
    }
}

/// A text whose prefix is no hex number is none either
proof fn lemma_hex_none_extends(s: Seq<char>, j: int)
    requires
        0 <= j <= s.len(),
        hex_value(s.take(j)) is None,
    ensures
        hex_value(s) is None,
    decreases s.len() - j,
{
    if j < s.len() {
        assert(s.take(j + 1).drop_last() =~= s.take(j));
        lemma_hex_none_extends(s, j + 1);
    } else {
        assert(s.take(j) =~= s);
    }
}

/// The key of a text in the table, as `oui_key` says
pub fn oui_key_of(s: &Vec<char>) -> (k: Option<u64>)
    ensures
        k == oui_key(s@),
{
    let n = s.len();
    if !(n == 6 || n == 7 || n == 9) {
        return None;
    }
    let mut v: u64 = 0;
    let mut bound: u64 = 1;
    let mut i: usize = 0;
    proof {
        lemma_pow16_bound(n as nat);
    }
    while i < n
        invariant
            n == s@.len(),
            n <= 9,
            i <= n,
            hex_value(s@.take(i as int)) == Some(v as int),
            bound == pow16(i as nat),
            v < bound,
            pow16(n as nat) <= 0x10_0000_0000,
        decreases n - i,
    {
        assert(s@.take(i as int + 1).drop_last() =~= s@.take(i as int));
        let c = s[i];
        let d: u64 = if '0' <= c && c <= '9' {
            (c as u64) - 48
        } else if 'A' <= c && c <= 'F' {
            (c as u64) - 55
        } else {
            proof {
                assert(hex_value(s@.take(i as int + 1)) is None);
                lemma_hex_none_extends(s@, i as int + 1);
            }
            return None;
        };
        proof {
            lemma_pow16_monotone((i + 1) as nat, n as nat);
            assert(v * 16 + d < 16 * bound) by (nonlinear_arith)
                requires
                    v < bound,
                    d < 16,
            ;
        }
        v = v * 16 + d;
        bound = bound * 16;
        i = i + 1;
    }
    assert(s@.take(n as int) =~= s@);
    Some((n as u64) * 0x10_0000_0000 + v)
}

/// What a CSV record of an OUI table adds: the key of its assignment
/// (second field) cleaned and in upper case, and its organization (third
/// field) cleaned
pub open spec fn record_entry(r: Seq<Seq<char>>) -> (Option<u64>, Seq<char>) {
    (oui_key(upper(clean(r[1]))), clean(r[2]))
}

/// Index of the first record with fewer than three fields, or the number
/// of records
pub open spec fn first_malformed(recs: Seq<Seq<Seq<char>>>, i: int) -> int
    decreases recs.len() - i,
{
    if i < 0 || i >= recs.len() {
        recs.len() as int
    } else if recs[i].len() < 3 {
        i
    } else {
        first_malformed(recs, i + 1)
    }
}

proof fn lemma_first_malformed_bound(recs: Seq<Seq<Seq<char>>>, i: int)
    requires
        0 <= i <= recs.len(),
    ensures
        i <= first_malformed(recs, i) <= recs.len(),
    decreases recs.len() - i,
{
    if i < recs.len() && recs[i].len() >= 3 {
        lemma_first_malformed_bound(recs, i + 1);
    }
}

/// The table with an entry added, unless its key is there already (the
/// first record of a prefix wins) or it has no key
pub open spec fn add_entry(t: Map<u64, Seq<char>>, e: (Option<u64>, Seq<char>)) -> Map<u64, Seq<char>> {
    match e.0 {
        Some(k) => if t.contains_key(k) {
            t
        } else {
            t.insert(k, e.1)
        },
        None => t,
    }
}

/// The table with the entries of the records added in order
pub open spec fn add_records(t: Map<u64, Seq<char>>, recs: Seq<Seq<Seq<char>>>) -> Map<u64, Seq<char>>
    decreases recs.len(),
{
    if recs.len() == 0 {
        t
    } else {
        add_entry(add_records(t, recs.drop_last()), record_entry(recs.last()))
    }
}

/// The error for a record with fewer than three fields
pub open spec fn malformed_message(r: Seq<Seq<char>>, path: Seq<char>) -> Seq<char> {
    if r.len() < 2 {
        "missing OUI field in record: "@ + path
    } else {
        "missing organization field in record: "@ + path
    }
}

/// What the `csv` crate reads from a text with a header line: the records
/// up to the first it cannot read, each as its fields, and the message of
/// the error it stopped at, if any
pub uninterp spec fn csv_read(text: Seq<char>) -> (Seq<Seq<Seq<char>>>, Option<Seq<char>>);

/// The plain contents of records
pub open spec fn records_view(r: Seq<Vec<String>>) -> Seq<Seq<Seq<char>>> {
    r.map_values(|rec: Vec<String>| rec@.map_values(|f: String| f@))
}

/// Reads the records of a CSV text with a header line with
/// `csv::Reader::records`: the records up to the first error, and that
/// error's message. The result is `csv_read` of the text; what the crate
/// accepts as CSV is not stated here.
#[verifier::external_body]
fn read_csv(text: &str) -> (r: (Vec<Vec<String>>, Option<String>))
    ensures
        (records_view(r.0@), match r.1 {
            Some(m) => Some(m@),
            None => None,
        }) == csv_read(text@),
{
    let mut records = Vec::new();
    for result in csv::Reader::from_reader(text.as_bytes()).records() {
        match result {
            Ok(rec) => records.push(rec.iter().map(|f| f.to_string()).collect()),
            Err(e) => return (records, Some(e.to_string())),
        }
    }
    (records, None)
}

/// What `Path::join` makes of a directory and a file name on Unix, the
/// platform this library builds for: the file where it is an absolute
/// path; else the directory, a `/` where the directory is not empty and
/// does not end in one, and the file
pub open spec fn joined_path(dir: Seq<char>, file: Seq<char>) -> Seq<char> {
    if file.len() > 0 && file[0] == '/' {
        file
    } else if dir.len() == 0 || dir.last() == '/' {
        dir + file
    } else {
        dir + seq!['/'] + file
    }
}

/// `std::path::Path::join`: the path of the file in the directory, as text.
///
/// Trusted: on Unix an absolute path replaces the directory and a relative
/// one is added after a separator, as `joined_path` states; both texts are
/// UTF-8, so the lossy conversion changes nothing.
#[verifier::external_body]
fn join_path(dir: &str, file: &str) -> (p: String)
    ensures
        p@ == joined_path(dir@, file@),
{
    std::path::Path::new(dir).join(file).to_string_lossy().into_owned()
}

/// The file names of the IEEE tables, in the order they are loaded: MA-L,
/// MA-M, MA-S, CID and IAB assignments
pub open spec fn table_files() -> Seq<Seq<char>> {
    seq!["oui.csv"@, "mam.csv"@, "oui36.csv"@, "cid.csv"@, "iab.csv"@]
}

/// The URLs the IEEE tables are downloaded from, in the order of
/// `table_files`
pub open spec fn table_urls() -> Seq<Seq<char>> {
    seq![
        "https://standards-oui.ieee.org/oui/oui.csv"@,
        "https://standards-oui.ieee.org/oui28/mam.csv"@,
        "https://standards-oui.ieee.org/oui36/oui36.csv"@,
        "https://standards-oui.ieee.org/cid/cid.csv"@,
        "https://standards-oui.ieee.org/iab/iab.csv"@,
    ]
}

/// The file names of the IEEE tables
pub fn data_files() -> (v: Vec<&'static str>)
    ensures
        v@.map_values(|f: &str| f@) == table_files(),
{
    let v = vec!["oui.csv", "mam.csv", "oui36.csv", "cid.csv", "iab.csv"];
    assert(v@.map_values(|f: &str| f@) =~= table_files());
    v
}

/// The URLs the IEEE tables are downloaded from
pub fn data_urls() -> (v: Vec<&'static str>)
    ensures
        v@.map_values(|f: &str| f@) == table_urls(),
{
    let v = vec![
        "https://standards-oui.ieee.org/oui/oui.csv",
        "https://standards-oui.ieee.org/oui28/mam.csv",
        "https://standards-oui.ieee.org/oui36/oui36.csv",
        "https://standards-oui.ieee.org/cid/cid.csv",
        "https://standards-oui.ieee.org/iab/iab.csv",
    ];
    assert(v@.map_values(|f: &str| f@) =~= table_urls());
    v
}

/// The organization of each key of the table
pub open spec fn table_view(m: Map<u64, OuiData>) -> Map<u64, Seq<char>> {
    Map::new(|k: u64| m.contains_key(k), |k: u64| m[k]@)
}

/// In-memory OUI database built from the IEEE CSV files kept in a
/// directory
pub struct OuiDb {
    data_dir: String,
    csv_paths: Vec<String>,
    data: HashMap<u64, OuiData>,
}

/// The plain contents of an OUI database
pub struct OuiDbData {
    pub data_dir: Seq<char>,
    pub csv_paths: Seq<Seq<char>>,
    pub table: Map<u64, Seq<char>>,
}

impl View for OuiDb {
    type V = OuiDbData;

    closed spec fn view(&self) -> OuiDbData {
        OuiDbData {
            data_dir: self.data_dir@,
            csv_paths: self.csv_paths@.map_values(|p: String| p@),
            table: table_view(self.data@),
        }
    }
}

impl OuiDb {
    /// A database whose CSV files are in `data_dir`, with nothing loaded
    pub fn new(data_dir: &str) -> (db: OuiDb)
        ensures
            db@.data_dir == data_dir@,
            db@.csv_paths == table_files().map_values(|f: Seq<char>| joined_path(data_dir@, f)),
            db@.table == Map::<u64, Seq<char>>::empty(),
    {
        let files = data_files();
        let mut csv_paths: Vec<String> = Vec::new();
        let mut i: usize = 0;
        while i < files.len()
            invariant
                i <= files@.len(),
                files@.map_values(|f: &str| f@) == table_files(),
                csv_paths@.len() == i,
                csv_paths@.map_values(|p: String| p@) == table_files().take(i as int).map_values(
                    |f: Seq<char>| joined_path(data_dir@, f),
                ),
            decreases files@.len() - i,
        {
            let p = join_path(data_dir, files[i]);
            let ghost old_paths = csv_paths@;
            csv_paths.push(p);
            assert(table_files()[i as int] == files@[i as int]@);
            assert forall|k: int| 0 <= k < i implies csv_paths@[k]@ == joined_path(data_dir@, table_files()[k]) by {
                assert(csv_paths@[k] == old_paths[k]);
                assert(old_paths.map_values(|p: String| p@)[k] == table_files().take(i as int).map_values(
                    |f: Seq<char>| joined_path(data_dir@, f),
                )[k]);
            }
            assert(csv_paths@.map_values(|p: String| p@) =~= table_files().take(i as int + 1).map_values(
                |f: Seq<char>| joined_path(data_dir@, f),
            ));
            i = i + 1;
        }
        assert(table_files().take(5) =~= table_files());
        let db = OuiDb { data_dir: data_dir.to_owned(), csv_paths, data: HashMap::new() };
        assert(table_view(db.data@) =~= Map::<u64, Seq<char>>::empty());
        db
    }

    /// The directory of the CSV files
    pub fn data_dir(&self) -> (d: &str)
        ensures
            d@ == self@.data_dir,
    {
        self.data_dir.as_str()
    }

    /// The paths of the CSV files, in the order they are loaded
    pub fn csv_paths(&self) -> (v: &Vec<String>)
        ensures
            v@.map_values(|p: String| p@) == self@.csv_paths,
    {
        &self.csv_paths
    }
}

/// The entry a record adds, as `record_entry` says
fn entry_of(rec: &Vec<String>) -> (e: (Option<u64>, String))
    requires
        rec@.len() >= 3,
    ensures
        (e.0, e.1@) == record_entry(rec@.map_values(|f: String| f@)),
{
    let assignment = clean_string(rec[1].as_str());
    let key = oui_key_of(&to_ascii_upper(&assignment));
    let organization = string_of(&clean_string(rec[2].as_str()));
    (key, organization)
}

impl OuiDb {
    /// Adds the entries of CSV records read from the file at `path`, in
    /// order, the first record of a prefix winning; stops with an error at
    /// the first record with fewer than three fields (the records before it
    /// are added)
    pub fn load_records(&mut self, records: &Vec<Vec<String>>, path: &str) -> (r: Result<(), RLanLibError>)
        ensures
            final(self)@.data_dir == old(self)@.data_dir,
            final(self)@.csv_paths == old(self)@.csv_paths,
            final(self)@.table == add_records(
                old(self)@.table,
                records_view(records@).take(first_malformed(records_view(records@), 0)),
            ),
            first_malformed(records_view(records@), 0) < records@.len() ==> (r matches Err(
                RLanLibError::Oui(m),
            ) && m@ == malformed_message(records_view(records@)[first_malformed(records_view(records@), 0)], path@)),
            first_malformed(records_view(records@), 0) == records@.len() ==> r is Ok,
    {
        let ghost recs = records_view(records@);
        let ghost start = self@.table;
        let n = records.len();
        let mut i: usize = 0;
        while i < n
            invariant
                n == records@.len(),
                recs == records_view(records@),
                i <= n,
                first_malformed(recs, 0) == first_malformed(recs, i as int),
                self@.data_dir == old(self)@.data_dir,
                self@.csv_paths == old(self)@.csv_paths,
                self@.table == add_records(start, recs.take(i as int)),
                start == old(self)@.table,
            decreases n - i,
        {
            let rec = &records[i];
            assert(recs[i as int] == rec@.map_values(|f: String| f@));
            if rec.len() < 3 {
                assert(first_malformed(recs, i as int) == i);
                let mut m = if rec.len() < 2 {
                    String::from_str("missing OUI field in record: ")
                } else {
                    String::from_str("missing organization field in record: ")
                };
                m.append(path);
                return Err(RLanLibError::Oui(m));
            }
            let (key, organization) = entry_of(rec);
            let ghost before = self@.table;
            assert(recs.take(i as int + 1).drop_last() =~= recs.take(i as int));
            match key {
                Some(k) => {
                    if !self.data.contains_key(&k) {
                        self.data.insert(k, OuiData::new(organization));
                        assert(table_view(self.data@) =~= before.insert(k, clean(recs[i as int][2])));
                    }
                },
                None => {},
            }
            i = i + 1;
        }
        assert(recs.take(n as int) =~= recs);
        Ok(())
    }
}

/// The table after loading the text of a CSV file at `path`, and the
/// message of the error loading stops with, if any: first a record with
/// too few fields, then an error of the CSV reader
pub open spec fn load_text(t: Map<u64, Seq<char>>, text: Seq<char>, path: Seq<char>) -> (
    Map<u64, Seq<char>>,
    Option<Seq<char>>,
) {
    let recs = csv_read(text).0;
    let p = first_malformed(recs, 0);
    let t2 = add_records(t, recs.take(p));
    if p < recs.len() {
        (t2, Some(malformed_message(recs[p], path)))
    } else {
        match csv_read(text).1 {
            Some(e) => (t2, Some("failed to get csv record: "@ + path + " : "@ + e)),
            None => (t2, None),
        }
    }
}

/// The table after loading the texts of the CSV files in order (the file
/// at `paths[i]` has text `texts[i]`), and the error loading stops with
pub open spec fn load_texts(t: Map<u64, Seq<char>>, texts: Seq<Seq<char>>, paths: Seq<Seq<char>>) -> (
    Map<u64, Seq<char>>,
    Option<Seq<char>>,
)
    decreases texts.len(),
{
    if texts.len() == 0 {
        (t, None)
    } else {
        let prev = load_texts(t, texts.drop_last(), paths);
        if prev.1 is Some {
            prev
        } else {
            load_text(prev.0, texts.last(), paths[texts.len() - 1])
        }
    }
}

impl OuiDb {
    /// Loads the text of the CSV file at `path`, as `load_text` says
    pub fn load_csv(&mut self, text: &str, path: &str) -> (r: Result<(), RLanLibError>)
        ensures
            final(self)@.data_dir == old(self)@.data_dir,
            final(self)@.csv_paths == old(self)@.csv_paths,
            final(self)@.table == load_text(old(self)@.table, text@, path@).0,
            match load_text(old(self)@.table, text@, path@).1 {
                Some(m) => r matches Err(RLanLibError::Oui(e)) && e@ == m,
                None => r is Ok,
            },
    {
        let (records, error) = read_csv(text);
        proof {
            lemma_first_malformed_bound(records_view(records@), 0);
        }
        match self.load_records(&records, path) {
            Err(e) => {
                return Err(e);
            },
            Ok(()) => {},
        }
        match error {
            Some(e) => {
                let mut m = String::from_str("failed to get csv record: ");
                m.append(path);
                m.append(" : ");
                m.append(e.as_str());
                Err(RLanLibError::Oui(m))
            },
            None => Ok(()),
        }
    }

    /// Loads the texts of the CSV files, given in the order of their paths,
    /// into the lookup table, as `load_texts` says; stops at the first
    /// error
    pub fn load_data(&mut self, files: &Vec<String>) -> (r: Result<(), RLanLibError>)
        requires
            files@.len() == old(self)@.csv_paths.len(),
        ensures
            final(self)@.data_dir == old(self)@.data_dir,
            final(self)@.csv_paths == old(self)@.csv_paths,
            final(self)@.table == load_texts(old(self)@.table, text_views(files@), old(self)@.csv_paths).0,
            match load_texts(old(self)@.table, text_views(files@), old(self)@.csv_paths).1 {
                Some(m) => r matches Err(RLanLibError::Oui(e)) && e@ == m,
                None => r is Ok,
            },
    {
        let ghost start = self@.table;
        let ghost texts = text_views(files@);
        let ghost paths = self@.csv_paths;
        let n = files.len();
        let mut i: usize = 0;
        while i < n
            invariant
                n == files@.len(),
                n == paths.len(),
                texts == text_views(files@),
                paths == self@.csv_paths,
                paths == old(self)@.csv_paths,
                i <= n,
                self@.data_dir == old(self)@.data_dir,
                load_texts(start, texts.take(i as int), paths) == (self@.table, None::<Seq<char>>),
                start == old(self)@.table,
            decreases n - i,
        {
            assert(texts.take(i as int + 1).drop_last() =~= texts.take(i as int));
            assert(texts[i as int] == files@[i as int]@);
            assert(self.csv_paths@[i as int]@ == paths[i as int]);
            let path = self.csv_paths[i].clone();
            let r = self.load_csv(files[i].as_str(), path.as_str());
            if r.is_err() {
                assert(texts.take(n as int).take(i as int + 1) =~= texts.take(i as int + 1));
                proof {
                    lemma_load_texts_stops(start, texts, paths, i as int + 1);
                }
                assert(texts.take(n as int) =~= texts);
                return r;
            }
            i = i + 1;
        }
        assert(texts.take(n as int) =~= texts);
        Ok(())
    }
}

/// Once loading stops with an error, later files change nothing
proof fn lemma_load_texts_stops(t: Map<u64, Seq<char>>, texts: Seq<Seq<char>>, paths: Seq<Seq<char>>, j: int)
    requires
        0 <= j <= texts.len(),
        load_texts(t, texts.take(j), paths).1 is Some,
    ensures
        load_texts(t, texts, paths) == load_texts(t, texts.take(j), paths),
    decreases texts.len() - j,
{
    if j < texts.len() {
        assert(texts.take(j + 1).drop_last() =~= texts.take(j));
        lemma_load_texts_stops(t, texts, paths, j + 1);
    } else {
        assert(texts.take(j) =~= texts);
    }
}

/// The text without `:` and `-` separators
pub open spec fn remove_seps(s: Seq<char>) -> Seq<char>
    decreases s.len(),
{
    if s.len() == 0 {
        s
    } else if s.last() == ':' || s.last() == '-' {
        remove_seps(s.drop_last())
    } else {
        remove_seps(s.drop_last()).push(s.last())
    }
}

/// The text a MAC address is looked up by: its hex digits in upper case,
/// without separators
pub open spec fn mac_key_text(mac: MacAddr) -> Seq<char> {
    remove_seps(upper(mac_text(mac)))
}

/// The organization of the key in the table, if it has one
pub open spec fn find(t: Map<u64, Seq<char>>, k: Option<u64>) -> Option<Seq<char>> {
    match k {
        Some(k) => if t.contains_key(k) {
            Some(t[k])
        } else {
            None
        },
        None => None,
    }
}

/// The organization a MAC address is registered to: IEEE assigns prefixes
/// of 9 (MA-S), 7 (MA-M) and 6 (MA-L) hex digits, and the most specific
/// prefix found wins
pub open spec fn spec_lookup(t: Map<u64, Seq<char>>, mac: MacAddr) -> Option<Seq<char>> {
    let s = mac_key_text(mac);
    let r9 = if s.len() >= 9 {
        find(t, oui_key(s.take(9)))
    } else {
        None
    };
    let r7 = if r9 is Some {
        r9
    } else if s.len() >= 7 {
        find(t, oui_key(s.take(7)))
    } else {
        None
    };
    if r7 is Some {
        r7
    } else if s.len() >= 6 {
        find(t, oui_key(s.take(6)))
    } else {
        None
    }
}

/// The text without `:` and `-` separators
fn without_seps(v: &Vec<char>) -> (r: Vec<char>)
    ensures
        r@ == remove_seps(v@),
{
    let mut r: Vec<char> = Vec::new();
    let mut i: usize = 0;
    while i < v.len()
        invariant
            i <= v@.len(),
            r@ == remove_seps(v@.take(i as int)),
        decreases v@.len() - i,
    {
        assert(v@.take(i as int + 1).drop_last() =~= v@.take(i as int));
        let c = v[i];
        if c != ':' && c != '-' {
            r.push(c);
        }
        i = i + 1;
    }
    assert(v@.take(i as int) =~= v@);
    r
}

/// The first `n` characters
fn prefix(v: &Vec<char>, n: usize) -> (r: Vec<char>)
    requires
        n <= v@.len(),
    ensures
        r@ == v@.take(n as int),
{
    let mut r: Vec<char> = Vec::new();
    let mut i: usize = 0;
    while i < n
        invariant
            n <= v@.len(),
            i <= n,
            r@ == v@.take(i as int),
        decreases n - i,
    {
        r.push(v[i]);
        assert(r@ =~= v@.take(i as int + 1));
        i = i + 1;
    }
    r
}

impl OuiDb {
    /// The organization of the key, if the table has it
    fn find_key(&self, k: Option<u64>) -> (r: Option<OuiData>)
        ensures
            opt_oui_view(r) == find(self@.table, k),
    {
        match k {
            Some(k) => match self.data.get(&k) {
                Some(d) => Some(d.copy()),
                None => None,
            },
            None => None,
        }
    }

    /// The record of the most specific prefix registered for the MAC
    /// address, as `spec_lookup` says
    pub fn lookup_mac(&self, mac: MacAddr) -> (r: Option<OuiData>)
        ensures
            opt_oui_view(r) == spec_lookup(self@.table, mac),
    {
        let text = mac.to_text();
        let s = without_seps(&to_ascii_upper(&chars_of(text.as_str())));
        let mut result: Option<OuiData> = None;
        if s.len() >= 9 {
            result = self.find_key(oui_key_of(&prefix(&s, 9)));
        }
        if result.is_none() && s.len() >= 7 {
            result = self.find_key(oui_key_of(&prefix(&s, 7)));
        }
        if result.is_none() && s.len() >= 6 {
            result = self.find_key(oui_key_of(&prefix(&s, 6)));
        }
        result
    }
}

impl Oui for OuiDb {
    fn lookup(&self, mac: MacAddr) -> (r: Option<OuiData>)
        ensures
            opt_oui_view(r) == spec_lookup(self@.table, mac),
    {
        self.lookup_mac(mac)
    }
}

/// The first record of a prefix wins: loading more records never changes
/// an organization the table has
pub proof fn lemma_first_record_wins(t: Map<u64, Seq<char>>, recs: Seq<Seq<Seq<char>>>, k: u64)
    requires
        t.contains_key(k),
    ensures
        add_records(t, recs).contains_key(k),
        add_records(t, recs)[k] == t[k],
    decreases recs.len(),
{
    if recs.len() > 0 {
        lemma_first_record_wins(t, recs.drop_last(), k);
    }
}

/// Loading the files keeps every organization the table had, across files
/// as within one
pub proof fn lemma_loading_keeps_known_prefixes(
    t: Map<u64, Seq<char>>,
    texts: Seq<Seq<char>>,
    paths: Seq<Seq<char>>,
    k: u64,
)
    requires
        t.contains_key(k),
    ensures
        load_texts(t, texts, paths).0.contains_key(k),
        load_texts(t, texts, paths).0[k] == t[k],
    decreases texts.len(),
{
    if texts.len() > 0 {
        lemma_loading_keeps_known_prefixes(t, texts.drop_last(), paths, k);
        let prev = load_texts(t, texts.drop_last(), paths);
        if prev.1 is None {
            let recs = csv_read(texts.last()).0;
            lemma_first_record_wins(prev.0, recs.take(first_malformed(recs, 0)), k);
        }
    }
}

proof fn lemma_remove_seps_append(a: Seq<char>, b: Seq<char>)
    ensures
        remove_seps(a + b) == remove_seps(a) + remove_seps(b),
    decreases b.len(),
{
    if b.len() == 0 {
        assert(a + b =~= a);
        assert(remove_seps(b) =~= Seq::<char>::empty());
    } else {
        assert((a + b).drop_last() =~= a + b.drop_last());
        lemma_remove_seps_append(a, b.drop_last());
    }
}

proof fn lemma_upper_append(a: Seq<char>, b: Seq<char>)
    ensures
        upper(a + b) == upper(a) + upper(b),
{
    assert(upper(a + b) =~= upper(a) + upper(b));
}

proof fn lemma_byte_key_text(b: u8)
    ensures
        remove_seps(upper(crate::net::byte_hex(b))).len() == 2,
{
    let u = upper(crate::net::byte_hex(b));
    assert(u.len() == 2);
    assert(u[0] != ':' && u[0] != '-' && u[1] != ':' && u[1] != '-');
    let u1 = u.drop_last();
    assert(u1.last() == u[0]);
    assert(u1.drop_last() =~= Seq::<char>::empty());
    assert(remove_seps(u1.drop_last()).len() == 0);
    assert(remove_seps(u1).len() == 1);
}

proof fn lemma_colon_key_text()
    ensures
        remove_seps(upper(seq![':'])).len() == 0,
{
    let u = upper(seq![':']);
    assert(u =~= seq![':']);
    assert(u.last() == ':');
    assert(u.drop_last() =~= Seq::<char>::empty());
    assert(remove_seps(u.drop_last()).len() == 0);
    assert(remove_seps(u) == remove_seps(u.drop_last()));
}

proof fn lemma_key_text_fold(mac: MacAddr)
    ensures
        mac_key_text(mac).len() == 12,
{
    let c = seq![':'];
    let h0 = crate::net::byte_hex(mac.0);
    let h1 = crate::net::byte_hex(mac.1);
    let h2 = crate::net::byte_hex(mac.2);
    let h3 = crate::net::byte_hex(mac.3);
    let h4 = crate::net::byte_hex(mac.4);
    let h5 = crate::net::byte_hex(mac.5);
    let t1 = h0 + c;
    let t2 = t1 + h1 + c;
    let t3 = t2 + h2 + c;
    let t4 = t3 + h3 + c;
    let t5 = t4 + h4 + c;
    let t6 = t5 + h5;
    assert(mac_text(mac) =~= t6);
    lemma_colon_key_text();
    lemma_byte_key_text(mac.0);
    lemma_byte_key_text(mac.1);
    lemma_byte_key_text(mac.2);
    lemma_byte_key_text(mac.3);
    lemma_byte_key_text(mac.4);
    lemma_byte_key_text(mac.5);
    lemma_upper_append(h0, c);
    lemma_remove_seps_append(upper(h0), upper(c));
    lemma_upper_append(t1, h1);
    lemma_remove_seps_append(upper(t1), upper(h1));
    lemma_upper_append(t1 + h1, c);
    lemma_remove_seps_append(upper(t1 + h1), upper(c));
    lemma_upper_append(t2, h2);
    lemma_remove_seps_append(upper(t2), upper(h2));
    lemma_upper_append(t2 + h2, c);
    lemma_remove_seps_append(upper(t2 + h2), upper(c));
    lemma_upper_append(t3, h3);
    lemma_remove_seps_append(upper(t3), upper(h3));
    lemma_upper_append(t3 + h3, c);
    lemma_remove_seps_append(upper(t3 + h3), upper(c));
    lemma_upper_append(t4, h4);
    lemma_remove_seps_append(upper(t4), upper(h4));
    lemma_upper_append(t4 + h4, c);
    lemma_remove_seps_append(upper(t4 + h4), upper(c));
    lemma_upper_append(t5, h5);
    lemma_remove_seps_append(upper(t5), upper(h5));
}

/// A MAC address under a registered MA-S prefix finds its organization,
/// whatever broader prefixes are registered
pub proof fn lemma_most_specific_prefix_wins(t: Map<u64, Seq<char>>, mac: MacAddr)
    requires
        oui_key(mac_key_text(mac).take(9)) matches Some(k) && t.contains_key(k),
    ensures
        spec_lookup(t, mac) == Some(t[oui_key(mac_key_text(mac).take(9))->Some_0]),
{
    lemma_key_text_fold(mac);
}

} // verus!
