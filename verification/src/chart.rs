//! The notes of a chart, as far as the monitor's decisions read them.
use vstd::prelude::*;

verus! {

/// How far the judging of one note has come.
#[derive(Clone, Copy, PartialEq, Eq, Debug, Structural)]
pub enum JudgeStatus {
    /// No judge has arrived yet.
    NotJudged,
    /// Touched, not yet committed.
    PreJudge,
    /// Committed.
    Judged,
    /// A hold note that is being held since `at`.
    Hold { perfect: bool, at: i64 },
}

/// The kind of a note.
#[derive(Clone, Copy, PartialEq, Eq, Debug, Structural)]
pub enum NoteKind {
    Click,
    Hold { end_time: i64 },
    Flick,
    Drag,
}

/// One note on a judge line. Fake notes are drawn and never judged.
#[derive(Clone, Copy, PartialEq, Eq, Debug, Structural)]
pub struct Note {
    pub time: i64,
    pub kind: NoteKind,
    pub fake: bool,
    pub judge: JudgeStatus,
}

/// A judge line with its notes.
#[derive(Debug)]
pub struct JudgeLine {
    pub notes: Vec<Note>,
}

/// A chart: its judge lines.
#[derive(Debug)]
pub struct Chart {
    pub lines: Vec<JudgeLine>,
}

impl View for Chart {
    type V = Seq<Seq<Note>>;

    open spec fn view(&self) -> Seq<Seq<Note>> {
        Seq::new(self.lines@.len(), |i: int| self.lines@[i].notes@)
    }
}

/// Whether the chart has a note `note` on line `line`.
pub open spec fn has_note(chart: Seq<Seq<Note>>, line: int, note: int) -> bool {
    0 <= line < chart.len() && 0 <= note < chart[line].len()
}

/// When a note is over.
pub open spec fn note_end(note: Note) -> i64 {
    match note.kind {
        NoteKind::Hold { end_time } => end_time,
        _ => note.time,
    }
}

/// Whether `end` is the instant at which the last real note of the chart is over, and zero for a
/// chart without real notes.
pub open spec fn is_expected_end(chart: Seq<Seq<Note>>, end: int) -> bool {
    &&& end >= 0
    &&& forall|i: int, j: int|
        has_note(chart, i, j) && !(#[trigger] chart[i][j]).fake ==> note_end(chart[i][j]) <= end
    &&& end == 0 || exists|i: int, j: int|
        has_note(chart, i, j) && !(#[trigger] chart[i][j]).fake && note_end(chart[i][j]) == end
}

/// How many of the notes are being held.
pub open spec fn holds_in(notes: Seq<Note>) -> nat
    decreases notes.len(),
{
    if notes.len() == 0 {
        0
    } else {
        holds_in(notes.drop_last()) + if notes.last().judge is Hold {
            1nat
        } else {
            0nat
        }
    }
}

/// How many notes of the chart are being held.
pub open spec fn holds(chart: Seq<Seq<Note>>) -> nat
    decreases chart.len(),
{
    if chart.len() == 0 {
        0
    } else {
        holds(chart.drop_last()) + holds_in(chart.last())
    }
}

/// How many notes the chart has.
pub open spec fn note_count(chart: Seq<Seq<Note>>) -> nat
    decreases chart.len(),
{
    if chart.len() == 0 {
        0
    } else {
        note_count(chart.drop_last()) + chart.last().len()
    }
}

/// The chart with the status of one note replaced.
pub open spec fn with_status(
    chart: Seq<Seq<Note>>,
    line: int,
    note: int,
    status: JudgeStatus,
) -> Seq<Seq<Note>> {
    chart.update(line, chart[line].update(note, Note { judge: status, ..chart[line][note] }))
}

proof fn lemma_holds_in_bound(notes: Seq<Note>)
    ensures
        holds_in(notes) <= notes.len(),
    decreases notes.len(),
{
    if notes.len() > 0 {
        lemma_holds_in_bound(notes.drop_last());
    }
}

/// The notes on the first `k` lines are no more than those on all of them.
proof fn lemma_note_count_prefix(chart: Seq<Seq<Note>>, k: int)
    requires
        0 <= k <= chart.len(),
    ensures
        note_count(chart.take(k)) <= note_count(chart),
    decreases chart.len(),
{
    if k < chart.len() {
        lemma_note_count_prefix(chart.drop_last(), k);
        assert(chart.drop_last().take(k) =~= chart.take(k));
    } else {
        assert(chart.take(k) =~= chart);
    }
}

/// No more notes are held than there are notes.
pub proof fn lemma_holds_bound(chart: Seq<Seq<Note>>)
    ensures
        holds(chart) <= note_count(chart),
    decreases chart.len(),
{
    if chart.len() > 0 {
        lemma_holds_bound(chart.drop_last());
        lemma_holds_in_bound(chart.last());
    }
}

/// Replacing a status keeps the number of notes.
pub proof fn lemma_with_status_count(
    chart: Seq<Seq<Note>>,
    line: int,
    note: int,
    status: JudgeStatus,
)
    requires
        has_note(chart, line, note),
    ensures
        note_count(with_status(chart, line, note, status)) == note_count(chart),
    decreases chart.len(),
{
    let after = with_status(chart, line, note, status);
    if line == chart.len() - 1 {
        assert(after.drop_last() =~= chart.drop_last());
    } else {
        lemma_with_status_count(chart.drop_last(), line, note, status);
        assert(after.drop_last() =~= with_status(chart.drop_last(), line, note, status));
    }
}

/// A line without notes leaves the end of a chart where it is.
proof fn lemma_expected_end_empty_line(chart: Seq<Seq<Note>>, end: int)
    requires
        is_expected_end(chart, end),
    ensures
        is_expected_end(chart.push(Seq::empty()), end),
{
    let longer = chart.push(Seq::empty());
    assert forall|a: int, b: int| has_note(chart, a, b) || has_note(longer, a, b) implies has_note(
        chart,
        a,
        b,
    ) && has_note(longer, a, b) && #[trigger] longer[a][b] == #[trigger] chart[a][b] by {}
    assert forall|a: int, b: int|
        has_note(longer, a, b) && !(#[trigger] longer[a][b]).fake implies note_end(longer[a][b])
        <= end by {
        assert(longer[a][b] == chart[a][b]);
    }
    if end != 0 {
        let (a, b) = choose|a: int, b: int|
            has_note(chart, a, b) && !(#[trigger] chart[a][b]).fake && note_end(chart[a][b]) == end;
        assert(has_note(longer, a, b) && !longer[a][b].fake && note_end(longer[a][b]) == end);
    }
}

impl Note {
    /// When the note is over: the end of a hold note, the time of any other.
    pub fn end(&self) -> (r: i64)
        ensures
            r == note_end(*self),
    {
        match self.kind {
            NoteKind::Hold { end_time } => end_time,
            _ => self.time,
        }
    }
}

impl Chart {
    /// When the last real note of the chart is over.
    pub fn expected_end_time(&self) -> (r: i64)
        ensures
            is_expected_end(self@, r as int),
    {
        let mut end: i64 = 0;
        for i in 0..self.lines.len()
            invariant
                is_expected_end(self@.take(i as int), end as int),
        {
            let line: &Vec<Note> = &self.lines[i].notes;
            assert(line@ == self@[i as int]);
            let ghost whole = self@.take(i as int);
            proof {
                lemma_expected_end_empty_line(whole, end as int);
                assert(line@.take(0) =~= Seq::<Note>::empty());
            }
            for j in 0..line.len()
                invariant
                    0 <= i < self.lines.len(),
                    line@ == self@[i as int],
                    whole == self@.take(i as int),
                    is_expected_end(whole.push(line@.take(j as int)), end as int),
            {
                let ghost before = whole.push(line@.take(j as int));
                let ghost after = whole.push(line@.take(j + 1));
                let ghost old_end = end as int;
                let note: Note = line[j];
                if !note.fake {
                    let over: i64 = note.end();
                    if over > end {
                        end = over;
                    }
                }
                proof {
                    assert(after[i as int][j as int] == note);
                    assert forall|a: int, b: int|
                        has_note(before, a, b) implies has_note(after, a, b) && #[trigger] after[a][b]
                        == #[trigger] before[a][b] by {}
                    assert forall|a: int, b: int|
                        has_note(after, a, b) && !(#[trigger] after[a][b]).fake implies note_end(
                        after[a][b],
                    ) <= end by {
                        if !(a == i && b == j) {
                            assert(has_note(before, a, b));
                            assert(before[a][b] == after[a][b]);
                        }
                    }
                    if end != 0 {
                        if end == old_end {
                            let (a, b) = choose|a: int, b: int|
                                has_note(before, a, b) && !(#[trigger] before[a][b]).fake && note_end(
                                    before[a][b],
                                ) == old_end;
                            assert(has_note(after, a, b) && !after[a][b].fake && note_end(after[a][b])
                                == end);
                        } else {
                            assert(has_note(after, i as int, j as int) && !after[i as int][j as int].fake
                                && note_end(after[i as int][j as int]) == end);
                        }
                    }
                }
            }
            assert(line@.take(line@.len() as int) =~= line@);
            assert(whole.push(line@) =~= self@.take(i + 1));
        }
        assert(self@.take(self@.len() as int) =~= self@);
        end
    }

    /// Whether a 32-bit counter can count the chart's notes.
    pub fn is_countable(&self) -> (r: bool)
        ensures
            r == (note_count(self@) <= u32::MAX),
    {
        let mut count: u64 = 0;
        for i in 0..self.lines.len()
            invariant
                count == note_count(self@.take(i as int)),
                count <= u32::MAX,
        {
            let len: usize = self.lines[i].notes.len();
            proof {
                assert(self@.take(i + 1).drop_last() =~= self@.take(i as int));
                lemma_note_count_prefix(self@, i + 1);
            }
            if len > u32::MAX as usize || count + len as u64 > u32::MAX as u64 {
                return false;
            }
            count = count + len as u64;
        }
        assert(self@.take(self@.len() as int) =~= self@);
        true
    }

    /// How many notes are being held.
    pub fn count_holds(&self) -> (r: u32)
        requires
            note_count(self@) <= u32::MAX,
        ensures
            r == holds(self@),
    {
        let mut count: u32 = 0;
        for i in 0..self.lines.len()
            invariant
                note_count(self@) <= u32::MAX,
                count == holds(self@.take(i as int)),
        {
            let line: &Vec<Note> = &self.lines[i].notes;
            let ghost before = count as nat;
            proof {
                assert(line@ == self@[i as int]);
                assert(self@.take(i + 1).drop_last() =~= self@.take(i as int));
                lemma_note_count_prefix(self@, i + 1);
                lemma_holds_bound(self@.take(i as int));
            }
            for j in 0..line.len()
                invariant
                    before + line@.len() <= u32::MAX,
                    count == before + holds_in(line@.take(j as int)),
            {
                proof {
                    assert(line@.take(j + 1).drop_last() =~= line@.take(j as int));
                    lemma_holds_in_bound(line@.take(j as int));
                }
                match line[j].judge {
                    JudgeStatus::Hold { .. } => {
                        count = count + 1;
                    },
                    _ => {},
                }
            }
            assert(line@.take(line@.len() as int) =~= line@);
        }
        assert(self@.take(self@.len() as int) =~= self@);
        count
    }

    /// Replaces the status of one note.
    pub fn set_status(&mut self, line: usize, note: usize, status: JudgeStatus)
        requires
            has_note(old(self)@, line as int, note as int),
        ensures
            final(self)@ == with_status(old(self)@, line as int, note as int, status),
    {
        assert(self.lines@[line as int].notes@ == self@[line as int]);
        self.lines[line].notes[note].judge = status;
        assert(self@ =~= with_status(old(self)@, line as int, note as int, status));
    }
}

} // verus!
