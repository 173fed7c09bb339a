//! The diff-hunk extractor: parsing the unified diff of the staged changes
//! into the changed regions, per file, that blame is asked about.
//!
//! Only the pre-image side matters: blame runs against the committed state.
//! A section whose pre-image is the null device (a newly added file) has no
//! history to attribute and contributes nothing.

use vstd::prelude::*;
use crate::text;

verus! {

/// One contiguous changed region of the staged diff, on the pre-image side:
/// the file, the first line, and the region's length as the header carried it
/// (a missing length means one line; an explicit zero is kept literally).
#[derive(Clone, Debug)]
pub struct Hunk {
    pub file: String,
    pub start: u32,
    pub len: u32,
}

/// Spec-level mirror of [`Hunk`].
pub struct HunkV {
    pub file: Seq<char>,
    pub start: u32,
    pub len: u32,
}

impl View for Hunk {
    type V = HunkV;

    open spec fn view(&self) -> HunkV {
        HunkV { file: self.file@, start: self.start, len: self.len }
    }
}

/// `c` is an octal digit.
pub open spec fn is_octal(c: char) -> bool {
    48 <= c as u32 <= 55
}

/// Executable test for [`is_octal`].
fn is_octal_char(c: char) -> (r: bool)
    ensures
        r == is_octal(c),
{
    let code = c as u32;
    48 <= code && code <= 55
}

/// The byte a named escape of the tool's C-style quoting denotes.
pub open spec fn spec_escape_byte(c: char) -> Option<u8> {
    if c == 'a' {
        Some(7u8)
    } else if c == 'b' {
        Some(8u8)
    } else if c == 't' {
        Some(9u8)
    } else if c == 'n' {
        Some(10u8)
    } else if c == 'v' {
        Some(11u8)
    } else if c == 'f' {
        Some(12u8)
    } else if c == 'r' {
        Some(13u8)
    } else if c == '"' {
        Some(34u8)
    } else if c == '\\' {
        Some(92u8)
    } else {
        None
    }
}

/// Reads a named escape.
fn escape_byte_char(c: char) -> (r: Option<u8>)
    ensures
        r == spec_escape_byte(c),
{
    if c == 'a' {
        Some(7u8)
    } else if c == 'b' {
        Some(8u8)
    } else if c == 't' {
        Some(9u8)
    } else if c == 'n' {
        Some(10u8)
    } else if c == 'v' {
        Some(11u8)
    } else if c == 'f' {
        Some(12u8)
    } else if c == 'r' {
        Some(13u8)
    } else if c == '"' {
        Some(34u8)
    } else if c == '\\' {
        Some(92u8)
    } else {
        None
    }
}

/// Prepends bytes already read to the rest of an unquoting.
pub open spec fn opt_bytes_prepend(a: Seq<u8>, o: Option<Seq<u8>>) -> Option<Seq<u8>> {
    match o {
        Some(t) => Some(a + t),
        None => None,
    }
}

proof fn lemma_prepend_step(a: Seq<u8>, b: u8, o: Option<Seq<u8>>)
    ensures
        opt_bytes_prepend(a, opt_bytes_prepend(seq![b], o)) == opt_bytes_prepend(a.push(b), o),
{
    match o {
        Some(t) => {
            assert(a + (seq![b] + t) =~= a.push(b) + t);
        },
        None => {},
    }
}

/// The bytes a C-quoted path denotes, read from position `i` up to a closing
/// quote that ends the text: literal ASCII characters stand for their byte,
/// a backslash introduces a named escape or three octal digits.  `None` where
/// the quoting is not of that form.
pub open spec fn spec_unquote_from(s: Seq<char>, i: nat) -> Option<Seq<u8>>
    decreases s.len() - i,
    when i <= s.len()
{
    if i >= s.len() {
        None
    } else if s[i as int] == '"' {
        if i + 1 == s.len() {
            Some(Seq::empty())
        } else {
            None
        }
    } else if s[i as int] == '\\' {
        if i + 1 >= s.len() {
            None
        } else if spec_escape_byte(s[i as int + 1]) is Some {
            opt_bytes_prepend(
                seq![spec_escape_byte(s[i as int + 1]).unwrap()],
                spec_unquote_from(s, i + 2),
            )
        } else if i + 3 < s.len() && is_octal(s[i as int + 1]) && is_octal(s[i as int + 2])
            && is_octal(s[i as int + 3]) {
            let v = (s[i as int + 1] as u32 - 48) * 64 + (s[i as int + 2] as u32 - 48) * 8 + (
            s[i as int + 3] as u32 - 48);
            if v <= 255 {
                opt_bytes_prepend(seq![v as u8], spec_unquote_from(s, i + 4))
            } else {
                None
            }
        } else {
            None
        }
    } else if (s[i as int] as u32) < 128 {
        let b = (s[i as int] as u32) as u8;
        opt_bytes_prepend(seq![b], spec_unquote_from(s, i + 1))
    } else {
        None
    }
}

/// The path a quoted header denotes: the unquoted bytes decoded as UTF-8;
/// `None` where the quoting is malformed or the bytes are no UTF-8.
pub open spec fn spec_quoted_path(raw: Seq<char>) -> Option<Seq<char>> {
    match spec_unquote_from(raw, 1) {
        Some(b) => if vstd::utf8::valid_utf8(b) {
            Some(vstd::utf8::decode_utf8(b))
        } else {
            None
        },
        None => None,
    }
}

/// The pre-image path on a file-header line: what follows the marker, with
/// the tool's C-style quoting undone where it was applied (a quoted header
/// that cannot be read back is kept as written).
pub open spec fn spec_header_path(line: Seq<char>) -> Seq<char> {
    let raw = line.skip(4);
    if raw.len() > 0 && raw[0] == '"' {
        match spec_quoted_path(raw) {
            Some(p) => p,
            None => raw,
        }
    } else {
        raw
    }
}

/// Undoes the C-style quoting of a quoted header path.
fn unquote_from(raw: &str) -> (r: Option<String>)
    requires
        raw@.len() > 0,
        raw@[0] == '"',
    ensures
        match r {
            Some(p) => spec_quoted_path(raw@) == Some(p@),
            None => spec_quoted_path(raw@) is None,
        },
{
    let n = raw.unicode_len();
    let mut bytes: Vec<u8> = Vec::new();
    let mut i: usize = 1;
    proof {
        let o = spec_unquote_from(raw@, 1);
        if o is Some {
            assert(bytes@ + o.unwrap() =~= o.unwrap());
        }
    }
    while i < n
        invariant
            n == raw@.len(),
            1 <= i <= n,
            opt_bytes_prepend(bytes@, spec_unquote_from(raw@, i as nat)) == spec_unquote_from(
                raw@,
                1,
            ),
        decreases n - i,
    {
        let c = raw.get_char(i);
        if c == '"' {
            if i + 1 == n {
                proof {
                    assert(bytes@ + Seq::<u8>::empty() =~= bytes@);
                }
                return text::string_from_utf8(bytes);
            } else {
                return None;
            }
        } else if c == '\\' {
            if i + 1 >= n {
                return None;
            }
            let e = raw.get_char(i + 1);
            match escape_byte_char(e) {
                Some(b) => {
                    let ghost b0 = bytes@;
                    bytes.push(b);
                    proof {
                        lemma_prepend_step(b0, b, spec_unquote_from(raw@, (i + 2) as nat));
                        assert(bytes@ =~= b0.push(b));
                    }
                    i = i + 2;
                },
                None => {
                    if n - i > 3 && is_octal_char(e) && is_octal_char(raw.get_char(i + 2))
                        && is_octal_char(raw.get_char(i + 3)) {
                        let v = (e as u32 - 48) * 64 + (raw.get_char(i + 2) as u32 - 48) * 8 + (
                        raw.get_char(i + 3) as u32 - 48);
                        if v <= 255 {
                            let ghost b0 = bytes@;
                            bytes.push(v as u8);
                            proof {
                                lemma_prepend_step(
                                    b0,
                                    v as u8,
                                    spec_unquote_from(raw@, (i + 4) as nat),
                                );
                                assert(bytes@ =~= b0.push(v as u8));
                            }
                            i = i + 4;
                        } else {
                            return None;
                        }
                    } else {
                        return None;
                    }
                },
            }
        } else {
            let code = c as u32;
            if code < 128 {
                let ghost b0 = bytes@;
                bytes.push(code as u8);
                proof {
                    lemma_prepend_step(b0, code as u8, spec_unquote_from(raw@, (i + 1) as nat));
                    assert(bytes@ =~= b0.push(code as u8));
                }
                i = i + 1;
            } else {
                return None;
            }
        }
    }
    None
}

/// Reads the pre-image path off a file-header line.
fn header_path(line: &str) -> (r: String)
    requires
        text::spec_starts_with(line@, "--- "@),
    ensures
        r@ == spec_header_path(line@),
{
    proof {
        reveal_strlit("--- ");
    }
    let n = line.unicode_len();
    let raw = line.substring_char(4, n);
    proof {
        assert(raw@ =~= line@.skip(4));
    }
    if raw.unicode_len() > 0 && raw.get_char(0) == '"' {
        match unquote_from(raw) {
            Some(p) => p,
            None => raw.to_owned(),
        }
    } else {
        raw.to_owned()
    }
}

/// The numbers of a hunk header line `@@ -start[,len] ...`: the characters
/// between the marker and the next space, read as `start` or `start,len`; a
/// missing length means one line.  `None` where they are not plain decimal
/// numbers in range.
pub open spec fn spec_hunk_numbers(line: Seq<char>) -> Option<(u32, u32)> {
    let tail = line.skip(4);
    let nums = tail.take(text::find_from(tail, 0, ' ') as int);
    let com = text::find_from(nums, 0, ',');
    if com >= nums.len() {
        if text::valid_digits(nums) {
            Some((text::dec_value(nums) as u32, 1u32))
        } else {
            None
        }
    } else {
        let a = nums.take(com as int);
        let b = nums.skip(com as int + 1);
        if text::valid_digits(a) && text::valid_digits(b) {
            Some((text::dec_value(a) as u32, text::dec_value(b) as u32))
        } else {
            None
        }
    }
}

/// Reads the numbers of a hunk header line.
fn parse_hunk_numbers(line: &str) -> (r: Option<(u32, u32)>)
    requires
        text::spec_starts_with(line@, "@@ -"@),
    ensures
        r == spec_hunk_numbers(line@),
{
    proof {
        reveal_strlit("@@ -");
    }
    let n = line.unicode_len();
    let ghost tail = line@.skip(4);
    let mut e: usize = 4;
    while e < n && line.get_char(e) != ' '
        invariant
            n == line@.len(),
            4 <= e <= n,
            forall|k: int| 4 <= k < e ==> line@[k] != ' ',
        decreases n - e,
    {
        e = e + 1;
    }
    proof {
        assert forall|k: int| 0 <= k < e - 4 implies tail[k] != ' ' by {
            assert(tail[k] == line@[k + 4]);
        }
        text::lemma_find_from(tail, 0, (e - 4) as nat, ' ');
    }
    let ghost nums = tail.take((e - 4) as int);
    let mut com: usize = 4;
    while com < e && line.get_char(com) != ','
        invariant
            n == line@.len(),
            4 <= com <= e <= n,
            forall|k: int| 4 <= k < com ==> line@[k] != ',',
        decreases e - com,
    {
        com = com + 1;
    }
    proof {
        assert(nums.len() == e - 4);
        assert forall|k: int| 0 <= k < com - 4 implies nums[k] != ',' by {
            assert(nums[k] == line@[k + 4]);
        }
        if com < e {
            assert(nums[com - 4] == line@[com as int]);
        }
        text::lemma_find_from(nums, 0, (com - 4) as nat, ',');
    }
    if com == e {
        let digits = line.substring_char(4, e);
        proof {
            assert(digits@ =~= nums);
        }
        match text::parse_digits(digits) {
            Some(v) => Some((v, 1)),
            None => None,
        }
    } else {
        let da = line.substring_char(4, com);
        let db = line.substring_char(com + 1, e);
        proof {
            assert(da@ =~= nums.take(com - 4));
            assert(db@ =~= nums.skip(com - 4 + 1));
        }
        match text::parse_digits(da) {
            Some(va) => match text::parse_digits(db) {
                Some(vb) => Some((va, vb)),
                None => None,
            },
            None => None,
        }
    }
}

/// The view of the parser's file state.
pub open spec fn view_cur(cur: Option<String>) -> Option<Seq<char>> {
    match cur {
        Some(f) => Some(f@),
        None => None,
    }
}

/// The hunks of the diff lines.  `cur` is the current section's pre-image
/// file (`None` before any header and inside a skipped new-file section);
/// `awaiting` holds between a section boundary and that section's file
/// header, where alone a `--- ` line is a header — later in a section the
/// same shape is a deleted content line whose text begins `-- `, and means
/// nothing.  A boundary line opens a new section; the header switches the
/// file, the null device switching it off; a hunk header with readable
/// numbers emits one hunk for the current file.
pub open spec fn spec_hunks(
    lines: Seq<Seq<char>>,
    cur: Option<Seq<char>>,
    awaiting: bool,
) -> Seq<HunkV>
    decreases lines.len(),
{
    if lines.len() == 0 {
        Seq::empty()
    } else {
        let line = lines[0];
        let rest = lines.drop_first();
        if text::spec_starts_with(line, "diff "@) {
            spec_hunks(rest, None, true)
        } else if awaiting && text::spec_starts_with(line, "--- "@) {
            let path = spec_header_path(line);
            if path == "/dev/null"@ {
                spec_hunks(rest, None, false)
            } else {
                spec_hunks(rest, Some(path), false)
            }
        } else if text::spec_starts_with(line, "@@ -"@) {
            match cur {
                Some(f) => match spec_hunk_numbers(line) {
                    Some(p) => seq![HunkV { file: f, start: p.0, len: p.1 }] + spec_hunks(
                        rest,
                        cur,
                        awaiting,
                    ),
                    None => spec_hunks(rest, cur, awaiting),
                },
                None => spec_hunks(rest, cur, awaiting),
            }
        } else {
            spec_hunks(rest, cur, awaiting)
        }
    }
}

/// The hunks of a staged unified diff.  The text's start opens an implicit
/// section, so a diff without boundary lines is still read.
pub open spec fn spec_extract_hunks(diff: Seq<char>) -> Seq<HunkV> {
    spec_hunks(text::spec_split(diff, '\n'), None, true)
}

/// Every hunk the extractor emits names a real pre-image file, never the
/// null device: a section for a newly added file contributes nothing.
pub proof fn lemma_hunks_skip_new_files(
    lines: Seq<Seq<char>>,
    cur: Option<Seq<char>>,
    awaiting: bool,
    k: int,
)
    requires
        cur matches Some(f) ==> f != "/dev/null"@,
        0 <= k < spec_hunks(lines, cur, awaiting).len(),
    ensures
        spec_hunks(lines, cur, awaiting)[k].file != "/dev/null"@,
    decreases lines.len(),
{
    if lines.len() > 0 {
        let line = lines[0];
        let rest = lines.drop_first();
        if text::spec_starts_with(line, "diff "@) {
            lemma_hunks_skip_new_files(rest, None, true, k);
        } else if awaiting && text::spec_starts_with(line, "--- "@) {
            let path = spec_header_path(line);
            if path == "/dev/null"@ {
                lemma_hunks_skip_new_files(rest, None, false, k);
            } else {
                lemma_hunks_skip_new_files(rest, Some(path), false, k);
            }
        } else if text::spec_starts_with(line, "@@ -"@) {
            match cur {
                Some(f) => match spec_hunk_numbers(line) {
                    Some(p) => {
                        if k > 0 {
                            lemma_hunks_skip_new_files(rest, cur, awaiting, k - 1);
                        }
                    },
                    None => {
                        lemma_hunks_skip_new_files(rest, cur, awaiting, k);
                    },
                },
                None => {
                    lemma_hunks_skip_new_files(rest, cur, awaiting, k);
                },
            }
        } else {
            lemma_hunks_skip_new_files(rest, cur, awaiting, k);
        }
    }
}

/// Extracts the changed regions of the staged diff, grouped by file in diff
/// order.  No emitted hunk names the null device: newly added files are
/// skipped whole.
pub fn extract_hunks(diff: &str) -> (r: Vec<Hunk>)
    ensures
        r@.map_values(|h: Hunk| h@) == spec_extract_hunks(diff@),
        forall|k: int| 0 <= k < r@.len() ==> (#[trigger] r@[k])@.file != "/dev/null"@,
{
    let lines = text::split_char(diff, '\n');
    let ghost linesv = lines@.map_values(|l: String| l@);
    let mut r: Vec<Hunk> = Vec::new();
    let mut cur: Option<String> = None;
    let mut awaiting: bool = true;
    let mut i: usize = 0;
    proof {
        assert(linesv.skip(0) =~= linesv);
        assert(r@.map_values(|h: Hunk| h@) + spec_hunks(linesv, None, true) =~= spec_hunks(
            linesv,
            None,
            true,
        ));
    }
    while i < lines.len()
        invariant
            linesv == lines@.map_values(|l: String| l@),
            i <= lines.len(),
            spec_extract_hunks(diff@) == r@.map_values(|h: Hunk| h@) + spec_hunks(
                linesv.skip(i as int),
                view_cur(cur),
                awaiting,
            ),
            view_cur(cur) matches Some(f) ==> f != "/dev/null"@,
        decreases lines.len() - i,
    {
        let ghost curseq = linesv.skip(i as int);
        proof {
            assert(curseq[0] == linesv[i as int]);
            assert(curseq.drop_first() =~= linesv.skip(i as int + 1));
        }
        let line = &lines[i];
        if text::starts_with(line.as_str(), "diff ") {
            cur = None;
            awaiting = true;
        } else if awaiting && text::starts_with(line.as_str(), "--- ") {
            let path = header_path(line.as_str());
            if text::str_eq(path.as_str(), "/dev/null") {
                cur = None;
            } else {
                cur = Some(path);
            }
            awaiting = false;
        } else if text::starts_with(line.as_str(), "@@ -") {
            match &cur {
                Some(f) => {
                    match parse_hunk_numbers(line.as_str()) {
                        Some(p) => {
                            let ghost r0 = r@;
                            r.push(Hunk { file: f.clone(), start: p.0, len: p.1 });
                            proof {
                                assert(r@.map_values(|h: Hunk| h@) =~= r0.map_values(
                                    |h: Hunk| h@,
                                ).push(r@[r0.len() as int]@));
                                assert(r@.map_values(|h: Hunk| h@) + spec_hunks(
                                    linesv.skip(i as int + 1),
                                    view_cur(cur),
                                    awaiting,
                                ) =~= r0.map_values(|h: Hunk| h@) + spec_hunks(
                                    curseq,
                                    view_cur(cur),
                                    awaiting,
                                ));
                            }
                        },
                        None => {},
                    }
                },
                None => {},
            }
        }
        i = i + 1;
    }
    proof {
        assert(linesv.skip(lines@.len() as int) =~= Seq::<Seq<char>>::empty());
        assert(r@.map_values(|h: Hunk| h@) + spec_hunks(
            linesv.skip(lines@.len() as int),
            view_cur(cur),
            awaiting,
        ) =~= r@.map_values(|h: Hunk| h@));
        assert forall|k: int| 0 <= k < r@.len() implies (#[trigger] r@[k])@.file != "/dev/null"@ by {
            assert(r@.map_values(|h: Hunk| h@)[k] == r@[k]@);
            lemma_hunks_skip_new_files(linesv, None, true, k);
        }
    }
    r
}

/// The distinct files of a hunk list, in first-appearance order.
pub open spec fn spec_hunk_files(hunks: Seq<HunkV>, seen: Seq<Seq<char>>) -> Seq<Seq<char>>
    decreases hunks.len(),
{
    if hunks.len() == 0 {
        Seq::empty()
    } else if seen.contains(hunks[0].file) {
        spec_hunk_files(hunks.drop_first(), seen)
    } else {
        seq![hunks[0].file] + spec_hunk_files(hunks.drop_first(), seen.push(hunks[0].file))
    }
}

/// Lists each file of the hunk list once, in first-appearance order.
pub fn hunk_files(hunks: &Vec<Hunk>) -> (r: Vec<String>)
    ensures
        r@.map_values(|f: String| f@) == spec_hunk_files(
            hunks@.map_values(|h: Hunk| h@),
            Seq::empty(),
        ),
{
    let ghost hv = hunks@.map_values(|h: Hunk| h@);
    let mut r: Vec<String> = Vec::new();
    let mut seen = crate::candidates::SeenSet::new();
    let mut i: usize = 0;
    proof {
        assert(hv.skip(0) =~= hv);
        assert(r@.map_values(|f: String| f@) + spec_hunk_files(hv, seen@) =~= spec_hunk_files(
            hv,
            seen@,
        ));
    }
    while i < hunks.len()
        invariant
            hv == hunks@.map_values(|h: Hunk| h@),
            i <= hunks.len(),
            spec_hunk_files(hv, Seq::empty()) == r@.map_values(|f: String| f@) + spec_hunk_files(
                hv.skip(i as int),
                seen@,
            ),
        decreases hunks.len() - i,
    {
        let ghost cur = hv.skip(i as int);
        let ghost s0 = seen@;
        proof {
            assert(cur[0] == hv[i as int]);
            assert(cur.drop_first() =~= hv.skip(i as int + 1));
        }
        if !seen.contains(hunks[i].file.as_str()) {
            let ghost r0 = r@;
            r.push(hunks[i].file.clone());
            seen.insert(hunks[i].file.clone());
            proof {
                assert(seen@ == s0.push(hv[i as int].file));
                assert(r@.map_values(|f: String| f@) =~= r0.map_values(|f: String| f@).push(
                    r@[r0.len() as int]@,
                ));
                assert(spec_hunk_files(cur, s0) == seq![cur[0].file] + spec_hunk_files(
                    cur.drop_first(),
                    s0.push(cur[0].file),
                ));
                assert(r@.map_values(|f: String| f@) + spec_hunk_files(
                    hv.skip(i as int + 1),
                    seen@,
                ) =~= r0.map_values(|f: String| f@) + spec_hunk_files(cur, s0));
            }
        }
        i = i + 1;
    }
    proof {
        assert(hv.skip(hunks@.len() as int) =~= Seq::<HunkV>::empty());
        assert(r@.map_values(|f: String| f@) + spec_hunk_files(
            hv.skip(hunks@.len() as int),
            seen@,
        ) =~= r@.map_values(|f: String| f@));
    }
    r
}

/// The hunks of one file, in diff order.
pub open spec fn spec_hunks_for_file(hunks: Seq<HunkV>, file: Seq<char>) -> Seq<HunkV>
    decreases hunks.len(),
{
    if hunks.len() == 0 {
        Seq::empty()
    } else {
        let rest = spec_hunks_for_file(hunks.drop_first(), file);
        if hunks[0].file == file {
            seq![hunks[0]] + rest
        } else {
            rest
        }
    }
}

/// Selects the hunks of one file, in diff order.
pub fn hunks_for_file(hunks: &Vec<Hunk>, file: &str) -> (r: Vec<Hunk>)
    ensures
        r@.map_values(|h: Hunk| h@) == spec_hunks_for_file(
            hunks@.map_values(|h: Hunk| h@),
            file@,
        ),
{
    let ghost hv = hunks@.map_values(|h: Hunk| h@);
    let mut r: Vec<Hunk> = Vec::new();
    let mut i: usize = 0;
    proof {
        assert(hv.skip(0) =~= hv);
        assert(r@.map_values(|h: Hunk| h@) + spec_hunks_for_file(hv, file@)
            =~= spec_hunks_for_file(hv, file@));
    }
    while i < hunks.len()
        invariant
            hv == hunks@.map_values(|h: Hunk| h@),
            i <= hunks.len(),
            spec_hunks_for_file(hv, file@) == r@.map_values(|h: Hunk| h@) + spec_hunks_for_file(
                hv.skip(i as int),
                file@,
            ),
        decreases hunks.len() - i,
    {
        let ghost cur = hv.skip(i as int);
        proof {
            assert(cur[0] == hv[i as int]);
            assert(cur.drop_first() =~= hv.skip(i as int + 1));
        }
        if text::str_eq(hunks[i].file.as_str(), file) {
            let ghost r0 = r@;
            let h = Hunk {
                file: hunks[i].file.clone(),
                start: hunks[i].start,
                len: hunks[i].len,
            };
            proof {
                assert(h@ == hv[i as int]);
            }
            r.push(h);
            proof {
                assert(r@.map_values(|h: Hunk| h@) =~= r0.map_values(|h: Hunk| h@).push(
                    r@[r0.len() as int]@,
                ));
                assert(r@.map_values(|h: Hunk| h@) + spec_hunks_for_file(
                    hv.skip(i as int + 1),
                    file@,
                ) =~= r0.map_values(|h: Hunk| h@) + spec_hunks_for_file(cur, file@));
            }
        }
        i = i + 1;
    }
    proof {
        assert(hv.skip(hunks@.len() as int) =~= Seq::<HunkV>::empty());
        assert(r@.map_values(|h: Hunk| h@) + spec_hunks_for_file(
            hv.skip(hunks@.len() as int),
            file@,
        ) =~= r@.map_values(|h: Hunk| h@));
    }
    r
}

} // verus!
