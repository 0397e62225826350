use vstd::prelude::*;

use vstd::string::StringSliceAdditionalSpecFns;
use vstd::utf8::encode_utf8;

use crate::span::{BytePos, RelativeBytePos};
use crate::text::{lemma_white_step, on_boundary, str_get, white_len_at};
use vstd::utf8::valid_utf8;

verus! {

/// The offsets just after each line feed of `b` at or after `i`.
pub open spec fn starts_after(b: Seq<u8>, i: int) -> Seq<int>
    decreases b.len() - i,
{
    if i < 0 || i >= b.len() {
        seq![]
    } else if b[i] == 10u8 {
        seq![i + 1] + starts_after(b, i + 1)
    } else {
        starts_after(b, i + 1)
    }
}

/// The offsets at which the lines of `b` start: 0, and each offset just after a line feed.
pub open spec fn line_starts(b: Seq<u8>) -> Seq<int> {
    seq![0int] + starts_after(b, 0)
}

/// Each offset that `starts_after` gives follows a line feed.
proof fn lemma_starts_after(b: Seq<u8>, i: int, k: int)
    requires
        0 <= k < starts_after(b, i).len(),
    ensures
        1 <= starts_after(b, i)[k] <= b.len(),
        b[starts_after(b, i)[k] - 1] == 10u8,
    decreases b.len() - i,
{
    if 0 <= i < b.len() {
        if b[i] == 10u8 {
            if k > 0 {
                lemma_starts_after(b, i + 1, k - 1);
                assert(starts_after(b, i)[k] == starts_after(b, i + 1)[k - 1]);
            }
        } else {
            lemma_starts_after(b, i + 1, k);
        }
    }
}

/// In valid UTF-8, every line start is a character boundary.
pub proof fn lemma_line_start_boundary(b: Seq<u8>, k: int)
    requires
        valid_utf8(b),
        0 <= k < line_starts(b).len(),
    ensures
        on_boundary(b, line_starts(b)[k]),
        0 <= line_starts(b)[k] <= b.len(),
{
    if k > 0 {
        lemma_starts_after(b, 0, k - 1);
        let e = starts_after(b, 0)[k - 1];
        assert(line_starts(b)[k] == e);
        assert(white_len_at(b, e - 1) == 1);
        lemma_white_step(b, e - 1);
    }
}

/// Line starts are strictly increasing, begin at 0 and do not pass the end.
pub open spec fn lines_ok(lines: Seq<u32>, len: int) -> bool {
    &&& lines.len() >= 1
    &&& lines[0] == 0
    &&& forall|i: int, j: int| 0 <= i < j < lines.len() ==> lines[i] < lines[j]
    &&& forall|i: int| 0 <= i < lines.len() ==> lines[i] <= len
}

/// One source file: its name, where it starts in the combined address space, its length, its
/// text when that is loaded, and the table of its line starts.
pub struct SourceFile {
    name: String,
    start_pos: BytePos,
    source_len: RelativeBytePos,
    src: Option<String>,
    lines: Vec<u32>,
}

impl SourceFile {
    /// Where the file starts in the combined address space.
    pub closed spec fn spec_start(&self) -> BytePos {
        self.start_pos
    }

    /// The length of the file in bytes.
    pub closed spec fn spec_len(&self) -> RelativeBytePos {
        self.source_len
    }

    /// The name of the file.
    pub closed spec fn spec_name(&self) -> Seq<char> {
        self.name@
    }

    /// Where the file starts in the combined address space.
    pub fn start_pos(&self) -> (r: BytePos)
        ensures
            r == self.spec_start(),
    {
        self.start_pos
    }

    /// The length of the file in bytes.
    pub fn source_len(&self) -> (r: RelativeBytePos)
        ensures
            r == self.spec_len(),
    {
        self.source_len
    }

    /// The name of the file.
    pub fn name(&self) -> (r: &str)
        ensures
            r@ == self.spec_name(),
    {
        self.name.as_str()
    }

    /// The text of the file, if it is loaded.
    pub closed spec fn spec_src(&self) -> Option<Seq<u8>> {
        match self.src {
            Some(s) => Some(encode_utf8(s@)),
            None => None,
        }
    }

    /// The line starts, relative to the file.
    pub closed spec fn spec_lines(&self) -> Seq<u32> {
        self.lines@
    }

    /// The file fits in the address space, its line table is ordered, and a loaded text has the
    /// file's length and the line starts that its line feeds give.
    pub open spec fn wf(&self) -> bool {
        &&& self.spec_start().0 + self.spec_len().0 <= u32::MAX
        &&& lines_ok(self.spec_lines(), self.spec_len().0 as int)
        &&& match self.spec_src() {
            Some(b) => b.len() == self.spec_len().0 && self.spec_lines().len() == line_starts(
                b,
            ).len() && forall|i: int|
                0 <= i < self.spec_lines().len() ==> self.spec_lines()[i] as int == #[trigger] line_starts(b)[i],
            None => true,
        }
    }

    /// A loaded file made of `src`, starting at `start_pos`. Returns `None` when the file would
    /// not fit in the address space.
    pub fn new(name: String, start_pos: BytePos, src: String) -> (r: Option<SourceFile>)
        ensures
            (start_pos.0 + encode_utf8(src@).len() <= u32::MAX) <==> r is Some,
            r is Some ==> r->0.wf() && r->0.spec_start() == start_pos && r->0.spec_src() == Some(
                encode_utf8(src@),
            ) && r->0.spec_name() == name@,
    {
        let n = src.as_str().as_bytes().len();
        if n > (u32::MAX - start_pos.0) as usize {
            return None;
        }
        let lines = compute_lines(src.as_str());
        Some(SourceFile { name, start_pos, source_len: RelativeBytePos(n as u32), src: Some(src), lines })
    }

    /// A file of `len` bytes whose text is not loaded.
    pub fn new_unloaded(name: String, start_pos: BytePos, len: u32) -> (r: Option<SourceFile>)
        ensures
            (start_pos.0 + len <= u32::MAX) <==> r is Some,
            r is Some ==> r->0.wf() && r->0.spec_start() == start_pos && r->0.spec_src() is None
                && r->0.spec_len().0 == len && r->0.spec_name() == name@,
    {
        if len > u32::MAX - start_pos.0 {
            return None;
        }
        Some(SourceFile { name, start_pos, source_len: RelativeBytePos(len), src: None, lines: vec![0u32] })
    }

    /// Loads the text of a file that has none yet. Loading is done at most once: a file that
    /// already has its text keeps it. Returns whether the file now has text.
    pub fn load_source(&mut self, src: String) -> (r: bool)
        requires
            old(self).wf(),
        ensures
            final(self).wf(),
            final(self).spec_start() == old(self).spec_start(),
            final(self).spec_len() == old(self).spec_len(),
            old(self).spec_src() is Some ==> *final(self) == *old(self) && r,
            old(self).spec_src() is None && encode_utf8(src@).len() == old(self).spec_len().0
                ==> r && final(self).spec_src() == Some(encode_utf8(src@)),
            old(self).spec_src() is None && encode_utf8(src@).len() != old(self).spec_len().0
                ==> !r && *final(self) == *old(self),
    {
        if self.src.is_some() {
            return true;
        }
        if src.as_str().as_bytes().len() != self.source_len.0 as usize {
            return false;
        }
        self.lines = compute_lines(src.as_str());
        self.src = Some(src);
        true
    }

    /// The text of the file, if it is loaded.
    pub fn src(&self) -> (r: Option<&str>)
        ensures
            match self.spec_src() {
                Some(b) => r is Some && r->0.spec_bytes() == b,
                None => r is None,
            },
    {
        match &self.src {
            Some(s) => Some(s.as_str()),
            None => None,
        }
    }

    /// The number of lines.
    pub fn line_count(&self) -> (r: usize)
        ensures
            r == self.spec_lines().len(),
    {
        self.lines.len()
    }

    /// The start of line `i`, if there is such a line.
    pub fn line_start(&self, i: usize) -> (r: Option<RelativeBytePos>)
        ensures
            i < self.spec_lines().len() ==> r == Some(RelativeBytePos(self.spec_lines()[i as int])),
            i >= self.spec_lines().len() ==> r is None,
    {
        if i < self.lines.len() {
            Some(RelativeBytePos(self.lines[i]))
        } else {
            None
        }
    }

    /// The number of line starts before `pos` (`strict`) or at or before it.
    pub fn partition_lines(&self, pos: u32, strict: bool) -> (r: usize)
        requires
            self.wf(),
        ensures
            r <= self.spec_lines().len(),
            forall|k: int| 0 <= k < r ==> if strict { self.spec_lines()[k] < pos } else { self.spec_lines()[k] <= pos },
            forall|k: int| r <= k < self.spec_lines().len() ==> if strict { self.spec_lines()[k] >= pos } else { self.spec_lines()[k] > pos },
    {
        let mut lo: usize = 0;
        let mut hi: usize = self.lines.len();
        while lo < hi
            invariant
                self.wf(),
                0 <= lo <= hi <= self.lines@.len(),
                forall|k: int| 0 <= k < lo ==> if strict { self.lines@[k] < pos } else { self.lines@[k] <= pos },
                forall|k: int| hi <= k < self.lines@.len() ==> if strict { self.lines@[k] >= pos } else { self.lines@[k] > pos },
            decreases hi - lo,
        {
            let mid = lo + (hi - lo) / 2;
            let below = if strict { self.lines[mid] < pos } else { self.lines[mid] <= pos };
            if below {
                lo = mid + 1;
            } else {
                hi = mid;
            }
        }
        lo
    }

    /// The line that holds `pos`: the last line that starts at or before it.
    pub fn lookup_line(&self, pos: RelativeBytePos) -> (r: Option<usize>)
        requires
            self.wf(),
        ensures
            r is Some,
            r->0 < self.spec_lines().len(),
            self.spec_lines()[r->0 as int] <= pos.0,
            r->0 + 1 < self.spec_lines().len() ==> self.spec_lines()[r->0 + 1] > pos.0,
    {
        // binary search for the number of line starts at or before `pos`
        let mut lo: usize = 0;
        let mut hi: usize = self.lines.len();
        while lo < hi
            invariant
                self.wf(),
                0 <= lo <= hi <= self.lines@.len(),
                forall|k: int| 0 <= k < lo ==> self.lines@[k] <= pos.0,
                forall|k: int| hi <= k < self.lines@.len() ==> self.lines@[k] > pos.0,
            decreases hi - lo,
        {
            let mid = lo + (hi - lo) / 2;
            if self.lines[mid] <= pos.0 {
                lo = mid + 1;
            } else {
                hi = mid;
            }
        }
        assert(self.lines@[0] == 0);
        Some(lo - 1)
    }
}

/// Computes the line starts of `s`.
fn compute_lines(s: &str) -> (r: Vec<u32>)
    requires
        s.spec_bytes().len() <= u32::MAX,
    ensures
        lines_ok(r@, s.spec_bytes().len() as int),
        r@.len() == line_starts(s.spec_bytes()).len(),
        forall|i: int| 0 <= i < r@.len() ==> r@[i] as int == #[trigger] line_starts(s.spec_bytes())[i],
{
    let b = s.as_bytes();
    let mut lines: Vec<u32> = vec![0u32];
    let mut i: usize = 0;
    while i < b.len()
        invariant
            b@ == s.spec_bytes(),
            b@.len() <= u32::MAX,
            i <= b@.len(),
            lines@.len() >= 1,
            lines@[0] == 0,
            forall|x: int, y: int| 0 <= x < y < lines@.len() ==> lines@[x] < lines@[y],
            forall|x: int| 0 <= x < lines@.len() ==> lines@[x] <= i,
            line_starts(b@).len() == lines@.len() + starts_after(b@, i as int).len(),
            forall|x: int| 0 <= x < lines@.len() ==> lines@[x] as int == #[trigger] line_starts(b@)[x],
            forall|x: int| 0 <= x < starts_after(b@, i as int).len() ==> #[trigger] starts_after(b@, i as int)[x] == line_starts(b@)[lines@.len() + x],
        decreases b.len() - i,
    {
        let ghost before = lines@;
        if b[i] == 10u8 {
            lines.push((i + 1) as u32);
            assert(starts_after(b@, i as int) == seq![i + 1] + starts_after(b@, i + 1));
            assert(starts_after(b@, i as int)[0] == i + 1);
        } else {
            assert(starts_after(b@, i as int) == starts_after(b@, i + 1));
        }
        proof {
            assert forall|x: int| 0 <= x < starts_after(b@, i + 1).len() implies #[trigger] starts_after(b@, i + 1)[x] == line_starts(b@)[lines@.len() + x] by {
                if b@[i as int] == 10u8 {
                    assert(starts_after(b@, i as int)[x + 1] == starts_after(b@, i + 1)[x]);
                } else {
                }
            }
            assert forall|x: int| 0 <= x < lines@.len() implies lines@[x] as int == #[trigger] line_starts(b@)[x] by {
                if x == before.len() {
                    assert(starts_after(b@, i as int)[0] == line_starts(b@)[before.len() as int]);
                }
            }
        }
        i = i + 1;
    }
    lines
}

/// The table of loaded files, placed one after another in the combined address space with a
/// gap of at least one position between two files.
pub struct SourceMap {
    files: Vec<SourceFile>,
}

/// Whether file `i` is the last one that starts at or before `pos`.
pub open spec fn holds_pos(files: Seq<SourceFile>, i: int, pos: u32) -> bool {
    0 <= i < files.len() && files[i].spec_start().0 <= pos && (i + 1 == files.len()
        || files[i + 1].spec_start().0 > pos)
}

/// The index of the file that holds `pos`: the last file that starts at or before it.
pub open spec fn file_index(files: Seq<SourceFile>, pos: u32) -> Option<int> {
    if exists|i: int| #[trigger] holds_pos(files, i, pos) {
        Some(choose|i: int| #[trigger] holds_pos(files, i, pos))
    } else {
        None
    }
}

impl SourceMap {
    /// The files, in order.
    pub closed spec fn view(&self) -> Seq<SourceFile> {
        self.files@
    }

    /// Every file is well formed and each file ends before the next one starts.
    pub open spec fn wf(&self) -> bool {
        &&& forall|i: int| 0 <= i < self@.len() ==> (#[trigger] self@[i]).wf()
        &&& forall|i: int, j: int|
            0 <= i < j < self@.len() ==> #[trigger] self@[i].spec_start().0 + self@[i].spec_len().0
                < #[trigger] self@[j].spec_start().0
    }

    /// An empty map.
    pub fn new() -> (r: SourceMap)
        ensures
            r.wf(),
            r@.len() == 0,
    {
        SourceMap { files: Vec::new() }
    }

    /// The position at which the next file will start.
    pub open spec fn next_start(&self) -> int {
        if self@.len() == 0 {
            0
        } else {
            self@.last().spec_start().0 + self@.last().spec_len().0 + 1
        }
    }

    fn next_start_exec(&self) -> (r: Option<u32>)
        requires
            self.wf(),
        ensures
            self.next_start() <= u32::MAX ==> r == Some(self.next_start() as u32),
            self.next_start() > u32::MAX ==> r is None,
    {
        let n = self.files.len();
        if n == 0 {
            Some(0)
        } else {
            let f = &self.files[n - 1];
            assert(self@[n - 1].wf());
            if f.start_pos.0 + f.source_len.0 < u32::MAX {
                Some(f.start_pos.0 + f.source_len.0 + 1)
            } else {
                None
            }
        }
    }

    /// Adds a file with the text `src` after the last one and returns its index. Returns `None`
    /// when the address space is full.
    pub fn add_file(&mut self, name: String, src: String) -> (r: Option<usize>)
        requires
            old(self).wf(),
        ensures
            final(self).wf(),
            (old(self).next_start() + encode_utf8(src@).len() <= u32::MAX) <==> r is Some,
            r is Some ==> r->0 == old(self)@.len() && final(self)@.len() == old(self)@.len() + 1
                && final(self)@.take(old(self)@.len() as int) == old(self)@
                && final(self)@[r->0 as int].spec_src() == Some(encode_utf8(src@))
                && final(self)@[r->0 as int].spec_start().0 == old(self).next_start(),
            r is None ==> final(self)@ == old(self)@,
    {
        let start = match self.next_start_exec() {
            Some(s) => s,
            None => return None,
        };
        match SourceFile::new(name, BytePos(start), src) {
            Some(f) => {
                let ghost prev = self.files@;
                self.files.push(f);
                assert(self.files@.take(prev.len() as int) == prev);
                Some(self.files.len() - 1)
            },
            None => None,
        }
    }

    /// Adds a file of `len` bytes whose text is not loaded, and returns its index.
    pub fn add_unloaded_file(&mut self, name: String, len: u32) -> (r: Option<usize>)
        requires
            old(self).wf(),
        ensures
            final(self).wf(),
            (old(self).next_start() + len <= u32::MAX) <==> r is Some,
            r is Some ==> r->0 == old(self)@.len() && final(self)@.len() == old(self)@.len() + 1
                && final(self)@.take(old(self)@.len() as int) == old(self)@
                && final(self)@[r->0 as int].spec_src() is None
                && final(self)@[r->0 as int].spec_len().0 == len
                && final(self)@[r->0 as int].spec_start().0 == old(self).next_start(),
            r is None ==> final(self)@ == old(self)@,
    {
        let start = match self.next_start_exec() {
            Some(s) => s,
            None => return None,
        };
        match SourceFile::new_unloaded(name, BytePos(start), len) {
            Some(f) => {
                let ghost prev = self.files@;
                self.files.push(f);
                assert(self.files@.take(prev.len() as int) == prev);
                Some(self.files.len() - 1)
            },
            None => None,
        }
    }

    /// Loads the text of file `idx` if it has none yet. Returns whether it now has text.
    pub fn load_source(&mut self, idx: usize, src: String) -> (r: bool)
        requires
            old(self).wf(),
        ensures
            final(self).wf(),
            final(self)@.len() == old(self)@.len(),
            forall|i: int| 0 <= i < old(self)@.len() && i != idx ==> final(self)@[i] == old(self)@[i],
            idx < old(self)@.len() ==> {
                &&& final(self)@[idx as int].spec_start() == old(self)@[idx as int].spec_start()
                &&& final(self)@[idx as int].spec_len() == old(self)@[idx as int].spec_len()
                &&& old(self)@[idx as int].spec_src() is Some ==> r && final(self)@[idx as int] == old(self)@[idx as int]
                &&& old(self)@[idx as int].spec_src() is None ==> (r <==> encode_utf8(src@).len() == old(self)@[idx as int].spec_len().0)
                &&& r ==> final(self)@[idx as int].spec_src() is Some
                &&& (old(self)@[idx as int].spec_src() is None && r) ==> final(self)@[idx as int].spec_src() == Some(encode_utf8(src@))
            },
            idx >= old(self)@.len() ==> !r && final(self)@ == old(self)@,
    {
        if idx >= self.files.len() {
            return false;
        }
        let ghost prev = self.files@;
        let mut f = self.files.remove(idx);
        let r = f.load_source(src);
        self.files.insert(idx, f);
        assert forall|i: int, j: int|
            0 <= i < j < self@.len() implies #[trigger] self@[i].spec_start().0 + self@[i].spec_len().0
                < #[trigger] self@[j].spec_start().0 by {
            assert(self@[i].spec_start() == prev[i].spec_start() && self@[i].spec_len() == prev[i].spec_len());
            assert(self@[j].spec_start() == prev[j].spec_start());
        }
        assert forall|i: int| 0 <= i < self@.len() implies (#[trigger] self@[i]).wf() by {
            if i != idx {
                assert(self@[i] == prev[i]);
            }
        }
        r
    }

    /// The file at index `idx`.
    pub fn file(&self, idx: usize) -> (r: &SourceFile)
        requires
            idx < self@.len(),
        ensures
            *r == self@[idx as int],
    {
        &self.files[idx]
    }

    /// The number of files.
    pub fn len(&self) -> (r: usize)
        ensures
            r == self@.len(),
    {
        self.files.len()
    }

    /// The index of the file that holds `pos`: the last one that starts at or before it.
    pub fn lookup_file_index(&self, pos: BytePos) -> (r: Option<usize>)
        requires
            self.wf(),
        ensures
            match file_index(self@, pos.0) {
                Some(i) => r == Some(i as usize),
                None => r is None,
            },
    {
        let mut k = self.files.len();
        while k > 0
            invariant
                self.wf(),
                k <= self@.len(),
                forall|j: int| k <= j < self@.len() ==> self@[j].spec_start().0 > pos.0,
            decreases k,
        {
            if self.files[k - 1].start_pos().0 <= pos.0 {
                let i = k - 1;
                assert(file_index(self@, pos.0) == Some(i as int)) by {
                    assert(holds_pos(self@, i as int, pos.0));
                    let w = choose|w: int| #[trigger] holds_pos(self@, w, pos.0);
                    if w < i {
                        assert(self@[w + 1].spec_start().0 <= self@[i as int].spec_start().0 || w + 1 == i);
                    }
                }
                return Some(i);
            }
            k = k - 1;
        }
        assert(file_index(self@, pos.0) is None) by {
            if self@.len() > 0 {
                assert(self@[0].spec_start().0 > pos.0);
                assert forall|w: int| 0 <= w < self@.len() implies self@[w].spec_start().0 > pos.0 && !holds_pos(self@, w, pos.0) by {
                    if w > 0 {
                        assert(self@[0].spec_start().0 < self@[w].spec_start().0);
                    }
                }
            }
        }
        None
    }
}

/// A value that gives access to the source map, such as an analysis context.
pub trait HasSourceMap<'sm>: Copy {
    /// The source map.
    fn source_map(self) -> &'sm SourceMap;
}

impl<'sm> HasSourceMap<'sm> for &'sm SourceMap {
    fn source_map(self) -> &'sm SourceMap {
        self
    }
}

/// A handle to a piece of a loaded file's text, together with that file.
#[derive(Clone, Copy)]
pub struct SourceText<'a> {
    file: &'a SourceFile,
    text: &'a str,
}

impl<'a> SourceText<'a> {
    /// The file that the text belongs to.
    pub closed spec fn spec_file(&self) -> SourceFile {
        *self.file
    }

    /// The bytes of the text.
    pub closed spec fn spec_bytes(&self) -> Seq<u8> {
        self.text.spec_bytes()
    }

    /// The text.
    pub closed spec fn spec_str(&self) -> &'a str {
        self.text
    }

    /// The whole text of `file`. Returns `None` when its text is not loaded.
    pub fn new(file: &'a SourceFile) -> (r: Option<SourceText<'a>>)
        ensures
            match file.spec_src() {
                Some(b) => r is Some && r->0.spec_bytes() == b && r->0.spec_file() == *file,
                None => r is None,
            },
    {
        match file.src() {
            Some(text) => Some(SourceText { file, text }),
            None => None,
        }
    }

    /// The text.
    pub fn as_str(&self) -> (r: &'a str)
        ensures
            r.spec_bytes() == self.spec_bytes(),
            r == self.spec_str(),
    {
        self.text
    }

    /// The piece `start..end` of this text. Returns `None` when that range is out of order, out
    /// of bounds, or splits a character.
    pub fn with_index(self, start: usize, end: usize) -> (r: Option<SourceText<'a>>)
        ensures
            r is Some <==> crate::text::valid_range(self.spec_bytes(), start as int, end as int),
            r is Some ==> r->0.spec_bytes() == self.spec_bytes().subrange(start as int, end as int)
                && r->0.spec_file() == self.spec_file(),
    {
        match str_get(self.text, start, end) {
            Some(text) => Some(SourceText { file: self.file, text }),
            None => None,
        }
    }

    /// The file that holds the text.
    pub fn file(&self) -> (r: &'a SourceFile)
        ensures
            *r == self.spec_file(),
    {
        self.file
    }

    /// The text as an owned string.
    pub fn to_owned(&self) -> (r: String)
        ensures
            encode_utf8(r@) == self.spec_bytes(),
    {
        self.text.to_owned()
    }
}

} // verus!
