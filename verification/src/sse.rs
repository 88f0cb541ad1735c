use vstd::prelude::*;

use crate::text::{
    chars_of, count_leading_ws, find_char, first_pos, lemma_first_pos, lemma_first_pos_bounds, starts_with_chars,
    starts_with_seq, string_from_chars, trim_chars, trim_seq, trim_start_seq, lemma_leading_ws_bounds,
};

verus! {

broadcast use vstd::seq_lib::group_seq_properties;

/// The text `String::from_utf8_lossy` makes of some bytes.
pub uninterp spec fn lossy_text(bytes: Seq<u8>) -> Seq<char>;

/// Calls `String::from_utf8_lossy`; the text is the name `lossy_text` of the
/// bytes.
#[verifier::external_body]
pub(crate) fn utf8_lossy(bytes: &[u8]) -> (r: String)
    ensures
        r@ == lossy_text(bytes@),
{
    String::from_utf8_lossy(bytes).into_owned()
}

/// What a server-sent-event reader holds between chunks: the text after the
/// last line break, the data of the event being read, its id, and the id of
/// the last event completed.
pub struct SseModel {
    pub pending: Seq<char>,
    pub data: Seq<char>,
    pub id: Option<Seq<char>>,
    pub last_id: Seq<char>,
}

/// One line read: a blank line completes the event (its data is handed out when
/// there is any, and its id becomes the last id); a `data:` line adds to the
/// data, a line break between two; an `id:` line sets the id; others are
/// ignored. A line's final carriage return is dropped.
pub open spec fn line_step(st: SseModel, raw: Seq<char>) -> (SseModel, Option<Seq<char>>) {
    let line = if raw.len() > 0 && raw.last() == '\r' {
        raw.drop_last()
    } else {
        raw
    };
    if line.len() == 0 {
        (
            SseModel {
                pending: st.pending,
                data: Seq::empty(),
                id: None,
                last_id: match st.id {
                    Some(i) => i,
                    None => st.last_id,
                },
            },
            if st.data.len() > 0 {
                Some(st.data)
            } else {
                None
            },
        )
    } else if starts_with_seq(line, "data:"@) {
        let rest = trim_start_seq(line.skip(5));
        let data = if st.data.len() > 0 {
            st.data.push('\n') + rest
        } else {
            rest
        };
        (SseModel { data: data, ..st }, None)
    } else if starts_with_seq(line, "id:"@) {
        (SseModel { id: Some(trim_seq(line.skip(3))), ..st }, None)
    } else {
        (st, None)
    }
}

/// Reads every complete line of `buf` in turn; what follows the last line break
/// stays pending. Gives the state after and the data of the events completed.
pub open spec fn run_lines(st: SseModel, buf: Seq<char>) -> (SseModel, Seq<Seq<char>>)
    decreases buf.len(),
{
    let p = first_pos(buf, '\n');
    if p >= buf.len() || p < 0 {
        (SseModel { pending: buf, ..st }, Seq::empty())
    } else {
        let (st2, ev) = line_step(st, buf.take(p));
        let (st3, evs) = run_lines(st2, buf.skip(p + 1));
        (
            st3,
            match ev {
                Some(e) => seq![e] + evs,
                None => evs,
            },
        )
    }
}

/// What a reader does with a piece of text: reads it after what was pending.
pub open spec fn feed_spec(st: SseModel, text: Seq<char>) -> (SseModel, Seq<Seq<char>>) {
    run_lines(st, st.pending + text)
}

/// Reading lines does not depend on what the state holds as pending: that is
/// replaced by what follows the last line break.
proof fn lemma_run_lines_pending(st: SseModel, p: Seq<char>, buf: Seq<char>)
    ensures
        run_lines(SseModel { pending: p, ..st }, buf) == run_lines(st, buf),
    decreases buf.len(),
{
    let q = first_pos(buf, '\n');
    lemma_first_pos_bounds(buf, '\n');
    if q < buf.len() {
        let st2 = line_step(st, buf.take(q)).0;
        let alt2 = line_step(SseModel { pending: p, ..st }, buf.take(q)).0;
        assert(alt2 == SseModel { pending: p, ..st2 });
        lemma_run_lines_pending(st2, p, buf.skip(q + 1));
    }
}

/// Reading `x` and then `y` after what `x` left pending is reading `x + y`.
proof fn lemma_run_lines_split(st: SseModel, x: Seq<char>, y: Seq<char>)
    ensures
        ({
            let (s1, e1) = run_lines(st, x);
            let (s2, e2) = run_lines(s1, s1.pending + y);
            run_lines(st, x + y) == (s2, e1 + e2)
        }),
    decreases x.len(),
{
    let q = first_pos(x, '\n');
    lemma_first_pos_bounds(x, '\n');
    let xy = x + y;
    if q < x.len() {
        lemma_first_pos(xy, '\n', q);
        assert(xy.take(q) =~= x.take(q));
        assert(xy.skip(q + 1) =~= x.skip(q + 1) + y);
        let (st2, ev) = line_step(st, x.take(q));
        lemma_run_lines_split(st2, x.skip(q + 1), y);
        let (s1, e1) = run_lines(st2, x.skip(q + 1));
        let (s2, e2) = run_lines(s1, s1.pending + y);
        match ev {
            Some(e) => {
                assert(seq![e] + e1 + e2 =~= seq![e] + (e1 + e2));
            },
            None => {},
        }
    } else {
        let s1 = SseModel { pending: x, ..st };
        assert(run_lines(st, x) == (s1, Seq::<Seq<char>>::empty()));
        lemma_run_lines_pending(st, x, xy);
        assert(Seq::<Seq<char>>::empty() + run_lines(s1, xy).1 =~= run_lines(s1, xy).1);
    }
}

/// Where a stream is cut into chunks does not matter: reading `a` and then
/// `b` gives the state and the events that reading `a + b` at once gives.
pub proof fn lemma_feed_chunks(st: SseModel, a: Seq<char>, b: Seq<char>)
    ensures
        ({
            let (s1, e1) = feed_spec(st, a);
            let (s2, e2) = feed_spec(s1, b);
            feed_spec(st, a + b) == (s2, e1 + e2)
        }),
{
    lemma_run_lines_split(st, st.pending + a, b);
    assert(st.pending + (a + b) =~= (st.pending + a) + b);
}

/// Splits a stream of server-sent events into the data of its events.
pub struct SseReader {
    pending: Vec<char>,
    data: Vec<char>,
    id: Option<Vec<char>>,
    last_id: Vec<char>,
}

impl View for SseReader {
    type V = SseModel;

    closed spec fn view(&self) -> SseModel {
        SseModel {
            pending: self.pending@,
            data: self.data@,
            id: match self.id {
                Some(v) => Some(v@),
                None => None,
            },
            last_id: self.last_id@,
        }
    }
}

fn copy_range(v: &Vec<char>, from: usize, to: usize) -> (r: Vec<char>)
    requires
        from <= to <= v.len(),
    ensures
        r@ == v@.subrange(from as int, to as int),
{
    let mut r: Vec<char> = Vec::new();
    let mut i = from;
    while i < to
        invariant
            from <= i <= to <= v.len(),
            r@ =~= v@.subrange(from as int, i as int),
        decreases to - i,
    {
        r.push(v[i]);
        i = i + 1;
    }
    r
}

impl SseReader {
    /// A reader before any event; the last id starts as `last_id` (the stream
    /// is asked for events after it).
    pub fn new(last_id: &str) -> (r: Self)
        ensures
            r@ == (SseModel { pending: Seq::empty(), data: Seq::empty(), id: None, last_id: last_id@ }),
    {
        SseReader { pending: Vec::new(), data: Vec::new(), id: None, last_id: chars_of(last_id) }
    }

    /// The id of the last event completed.
    pub fn last_id(&self) -> (r: String)
        ensures
            r@ == self@.last_id,
    {
        string_from_chars(&self.last_id)
    }

    /// Reads one line (without its line break); gives the data of the event it
    /// completes, if any.
    fn read_line(&mut self, raw: Vec<char>) -> (r: Option<String>)
        ensures
            ({
                let (st, ev) = line_step(old(self)@, raw@);
                &&& final(self)@ == st
                &&& match r {
                    Some(s) => ev == Some(s@),
                    None => ev is None,
                }
            }),
    {
        let ghost ls = if raw@.len() > 0 && raw@.last() == '\r' {
            raw@.drop_last()
        } else {
            raw@
        };
        let mut line = raw;
        if line.len() > 0 && line[line.len() - 1] == '\r' {
            line.pop();
        }
        assert(line@ =~= ls);
        if line.len() == 0 {
            let ev = if self.data.len() > 0 {
                Some(string_from_chars(&self.data))
            } else {
                None
            };
            self.data = Vec::new();
            let mut id: Option<Vec<char>> = None;
            std::mem::swap(&mut id, &mut self.id);
            match id {
                Some(i) => {
                    self.last_id = i;
                },
                None => {},
            }
            return ev;
        }
        let data_prefix = chars_of("data:");
        let id_prefix = chars_of("id:");
        if starts_with_chars(&line, &data_prefix) {
            proof {
                reveal_strlit("data:");
            }
            let rest = copy_range(&line, 5, line.len());
            assert(rest@ =~= line@.skip(5));
            let lead = count_leading_ws(&rest);
            let trimmed = copy_range(&rest, lead, rest.len());
            assert(trimmed@ =~= trim_start_seq(rest@));
            if self.data.len() > 0 {
                self.data.push('\n');
            }
            let mut k: usize = 0;
            let ghost start = self.data@;
            while k < trimmed.len()
                invariant
                    k <= trimmed.len(),
                    self.data@ =~= start + trimmed@.take(k as int),
                    self.pending == old(self).pending,
                    self.id == old(self).id,
                    self.last_id == old(self).last_id,
                decreases trimmed.len() - k,
            {
                self.data.push(trimmed[k]);
                k = k + 1;
            }
            assert(trimmed@.take(k as int) =~= trimmed@);
            assert(line_step(old(self)@, raw@).1 is None);
            assert(line_step(old(self)@, raw@).0.data == self@.data);
            assert(line_step(old(self)@, raw@).0 == self@);
            None
        } else if starts_with_chars(&line, &id_prefix) {
            proof {
                reveal_strlit("id:");
            }
            assert(!starts_with_seq(ls, "data:"@));
            assert(starts_with_seq(ls, "id:"@));
            let rest = copy_range(&line, 3, line.len());
            assert(rest@ =~= line@.skip(3));
            let trimmed = trim_chars(&rest);
            assert(trimmed@ == trim_seq(ls.skip(3)));
            self.id = Some(trimmed);
            assert(self@.id == Some(trim_seq(ls.skip(3))));
            let ghost expected = line_step(old(self)@, raw@).0;
            assert(expected.id == self@.id);
            assert(expected.pending == self@.pending);
            assert(expected.data == self@.data);
            assert(expected.last_id == self@.last_id);
            assert(line_step(old(self)@, raw@).0 == self@);
            None
        } else {
            assert(!starts_with_seq(ls, "data:"@));
            assert(!starts_with_seq(ls, "id:"@));
            assert(line_step(old(self)@, raw@).0 == self@);
            None
        }
    }

    /// Reads a piece of text: every line it completes, in order. Gives the data
    /// of the events completed.
    #[verifier::rlimit(40)]
    pub fn feed_text(&mut self, text: &str) -> (r: Vec<String>)
        ensures
            ({
                let (st, evs) = feed_spec(old(self)@, text@);
                &&& final(self)@ == st
                &&& r@.map_values(|s: String| s@) == evs
            }),
    {
        let t = chars_of(text);
        let mut buf: Vec<char> = Vec::new();
        let mut i: usize = 0;
        while i < self.pending.len()
            invariant
                i <= self.pending.len(),
                buf@ =~= self.pending@.take(i as int),
            decreases self.pending.len() - i,
        {
            buf.push(self.pending[i]);
            i = i + 1;
        }
        let mut j: usize = 0;
        while j < t.len()
            invariant
                j <= t.len(),
                buf@ =~= self.pending@ + t@.take(j as int),
            decreases t.len() - j,
        {
            buf.push(t[j]);
            j = j + 1;
        }
        assert(t@.take(j as int) =~= text@);
        let ghost target = run_lines(self@, buf@);
        let mut out: Vec<String> = Vec::new();
        loop
            invariant
                ({
                    let (st, evs) = run_lines(self@, buf@);
                    &&& st == target.0
                    &&& out@.map_values(|s: String| s@) + evs == target.1
                }),
                target == feed_spec(old(self)@, text@),
            decreases buf.len(),
        {
            let p = find_char(&buf, '\n');
            proof {
                lemma_first_pos_bounds(buf@, '\n');
            }
            if p == buf.len() {
                let ghost old_self = self@;
                assert(run_lines(old_self, buf@) == (SseModel { pending: buf@, ..old_self }, Seq::<Seq<char>>::empty()));
                self.pending = buf;
                assert(self@ == SseModel { pending: buf@, ..old_self });
                proof {
                    assert(out@.map_values(|s: String| s@) =~= out@.map_values(|s: String| s@) + Seq::<Seq<char>>::empty());
                }
                return out;
            }
            let line = copy_range(&buf, 0, p);
            assert(line@ =~= buf@.take(p as int));
            let rest = copy_range(&buf, p + 1, buf.len());
            assert(rest@ =~= buf@.skip(p + 1));
            let ghost before = out@.map_values(|s: String| s@);
            let ghost (st2, ev) = line_step(self@, buf@.take(p as int));
            let ghost (st3, evs) = run_lines(st2, buf@.skip(p + 1));
            match self.read_line(line) {
                Some(e) => {
                    out.push(e);
                    assert(out@.map_values(|s: String| s@) =~= before.push(e@));
                    assert(before.push(e@) + evs =~= before + (seq![e@] + evs));
                },
                None => {},
            }
            buf = rest;
        }
    }

    /// Reads a chunk of bytes as `String::from_utf8_lossy` decodes it.
    pub fn feed(&mut self, chunk: &[u8]) -> (r: Vec<String>)
        ensures
            ({
                let (st, evs) = feed_spec(old(self)@, lossy_text(chunk@));
                &&& final(self)@ == st
                &&& r@.map_values(|s: String| s@) == evs
            }),
    {
        let text = utf8_lossy(chunk);
        self.feed_text(text.as_str())
    }
}

} // verus!
