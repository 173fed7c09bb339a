//! The candidate stream: reading file-history output, excluding fixup- and
//! squash-tagged commits, bounding the result, merging the three discovery
//! strategies in priority order, and deduplicating by commit id.

use vstd::prelude::*;
use crate::text;
use crate::git;

verus! {

/// Which discovery strategy found a candidate.
#[derive(Clone, Copy, Debug, PartialEq, Eq, Structural)]
pub enum Source {
    Recent,
    Blame,
    File,
}

/// A commit paired with the strategy that discovered it.
#[derive(Clone, Debug)]
pub struct SourcedCommit {
    pub commit: String,
    pub source: Source,
}

/// Spec-level mirror of [`SourcedCommit`].
pub struct SourcedCommitV {
    pub commit: Seq<char>,
    pub source: Source,
}

impl View for SourcedCommit {
    type V = SourcedCommitV;

    open spec fn view(&self) -> SourcedCommitV {
        SourcedCommitV { commit: self.commit@, source: self.source }
    }
}

/// A candidate ready for presentation: the commit, the strategy that found
/// it, and its pre-formatted display line.
#[derive(Clone, Debug)]
pub struct Candidate {
    pub commit: String,
    pub source: Source,
    pub rendered: String,
}

impl Candidate {
    /// Pairs a discovered commit with its display line.
    pub fn new(found: SourcedCommit, rendered: String) -> (r: Candidate)
        ensures
            r.commit@ == found.commit@,
            r.source == found.source,
            r.rendered@ == rendered@,
    {
        Candidate { commit: found.commit, source: found.source, rendered }
    }
}

/// A subject the history-rewrite tooling wrote: tagged `fixup! ` or
/// `squash! ` at its start.
pub open spec fn spec_is_fixup_subject(s: Seq<char>) -> bool {
    text::spec_starts_with(s, "fixup! "@) || text::spec_starts_with(s, "squash! "@)
}

/// Tests whether a subject is fixup- or squash-tagged.
pub fn is_fixup_subject(s: &str) -> (r: bool)
    ensures
        r == spec_is_fixup_subject(s@),
{
    text::starts_with(s, "fixup! ") || text::starts_with(s, "squash! ")
}

/// One line of file-history output: a commit hash and the commit's subject.
#[derive(Clone, Debug)]
pub struct HistoryEntry {
    pub hash: String,
    pub subject: String,
}

/// Spec-level mirror of [`HistoryEntry`].
pub struct HistoryEntryV {
    pub hash: Seq<char>,
    pub subject: Seq<char>,
}

impl View for HistoryEntry {
    type V = HistoryEntryV;

    open spec fn view(&self) -> HistoryEntryV {
        HistoryEntryV { hash: self.hash@, subject: self.subject@ }
    }
}

/// The hash on a history line: its first whitespace-delimited token.
pub open spec fn spec_line_hash(line: Seq<char>) -> Seq<char> {
    text::spec_first_token(line)
}

/// The subject on a history line: everything after the hash and the one
/// whitespace character that separates them.
pub open spec fn spec_line_subject(line: Seq<char>) -> Seq<char> {
    let b = text::scan_token(line, text::scan_ws(line, 0));
    if b < line.len() {
        line.skip(b as int + 1)
    } else {
        Seq::empty()
    }
}

/// Parses one `hash subject` line; `None` where the line holds no token.
pub fn parse_history_line(line: &str) -> (r: Option<HistoryEntry>)
    ensures
        match r {
            Some(e) => spec_line_hash(line@).len() > 0 && e.hash@ == spec_line_hash(line@)
                && e.subject@ == spec_line_subject(line@),
            None => spec_line_hash(line@).len() == 0,
        },
{
    let n = line.unicode_len();
    let mut a: usize = 0;
    while a < n && text::is_ws_char(line.get_char(a))
        invariant
            n == line@.len(),
            a <= n,
            forall|k: int| 0 <= k < a ==> text::is_ws(line@[k]),
        decreases n - a,
    {
        a = a + 1;
    }
    let mut b: usize = a;
    while b < n && !text::is_ws_char(line.get_char(b))
        invariant
            n == line@.len(),
            a <= b <= n,
            forall|k: int| a <= k < b ==> !text::is_ws(line@[k]),
        decreases n - b,
    {
        b = b + 1;
    }
    proof {
        text::lemma_scan_ws(line@, 0, a as nat);
        text::lemma_scan_token(line@, a as nat, b as nat);
    }
    if b == a {
        return None;
    }
    let hash = line.substring_char(a, b).to_owned();
    let subject = if b < n {
        let sub = line.substring_char(b + 1, n).to_owned();
        proof {
            assert(line@.subrange(b as int + 1, n as int) =~= line@.skip(b as int + 1));
        }
        sub
    } else {
        String::new()
    };
    Some(HistoryEntry { hash, subject })
}

/// The entries of the file-history output: one per line that carries a hash.
pub open spec fn spec_history_entries(lines: Seq<Seq<char>>) -> Seq<HistoryEntryV>
    decreases lines.len(),
{
    if lines.len() == 0 {
        Seq::empty()
    } else {
        let rest = spec_history_entries(lines.drop_first());
        if spec_line_hash(lines[0]).len() > 0 {
            seq![
                HistoryEntryV {
                    hash: spec_line_hash(lines[0]),
                    subject: spec_line_subject(lines[0]),
                },
            ] + rest
        } else {
            rest
        }
    }
}

/// Parses the file-history output into entries.
pub fn parse_history_lines(out: &str) -> (r: Vec<HistoryEntry>)
    ensures
        r@.map_values(|e: HistoryEntry| e@) == spec_history_entries(git::spec_output_lines(out@)),
{
    let lines = git::parse_output_lines(out);
    let ghost linesv = lines@.map_values(|l: String| l@);
    let mut r: Vec<HistoryEntry> = Vec::new();
    let mut i: usize = 0;
    proof {
        assert(linesv.skip(0) =~= linesv);
        assert(r@.map_values(|e: HistoryEntry| e@) + spec_history_entries(linesv)
            =~= spec_history_entries(linesv));
    }
    while i < lines.len()
        invariant
            linesv == lines@.map_values(|l: String| l@),
            i <= lines.len(),
            spec_history_entries(linesv) == r@.map_values(|e: HistoryEntry| e@)
                + spec_history_entries(linesv.skip(i as int)),
        decreases lines.len() - i,
    {
        let ghost cur = linesv.skip(i as int);
        proof {
            assert(cur[0] == linesv[i as int]);
            assert(cur.drop_first() =~= linesv.skip(i as int + 1));
        }
        match parse_history_line(lines[i].as_str()) {
            Some(e) => {
                let ghost r0 = r@;
                r.push(e);
                proof {
                    assert(r@.map_values(|e: HistoryEntry| e@) =~= r0.map_values(
                        |e: HistoryEntry| e@,
                    ).push(r@[r0.len() as int]@));
                    assert(r@.map_values(|e: HistoryEntry| e@) + spec_history_entries(
                        linesv.skip(i as int + 1),
                    ) =~= r0.map_values(|e: HistoryEntry| e@) + spec_history_entries(cur));
                }
            },
            None => {},
        }
        i = i + 1;
    }
    proof {
        assert(linesv.skip(lines@.len() as int) =~= Seq::<Seq<char>>::empty());
        assert(r@.map_values(|e: HistoryEntry| e@) =~= r@.map_values(|e: HistoryEntry| e@)
            + spec_history_entries(linesv.skip(lines@.len() as int)));
    }
    r
}

/// The entries free of fixup and squash tags, in order.
pub open spec fn spec_drop_fixups(entries: Seq<HistoryEntryV>) -> Seq<HistoryEntryV>
    decreases entries.len(),
{
    if entries.len() == 0 {
        Seq::empty()
    } else {
        let rest = spec_drop_fixups(entries.drop_first());
        if !spec_is_fixup_subject(entries[0].subject) {
            seq![entries[0]] + rest
        } else {
            rest
        }
    }
}

/// Everything [`spec_drop_fixups`] keeps is free of the tags.
pub proof fn lemma_drop_fixups_clean(entries: Seq<HistoryEntryV>, k: int)
    requires
        0 <= k < spec_drop_fixups(entries).len(),
    ensures
        !spec_is_fixup_subject(spec_drop_fixups(entries)[k].subject),
    decreases entries.len(),
{
    if entries.len() > 0 {
        if !spec_is_fixup_subject(entries[0].subject) {
            if k > 0 {
                lemma_drop_fixups_clean(entries.drop_first(), k - 1);
            }
        } else {
            lemma_drop_fixups_clean(entries.drop_first(), k);
        }
    }
}

/// Drops the entries the history-rewrite tooling created.  File-history
/// discovery never yields a fixup- or squash-tagged commit: no entry of the
/// result carries such a subject.
pub fn drop_fixups(entries: Vec<HistoryEntry>) -> (r: Vec<HistoryEntry>)
    ensures
        r@.map_values(|e: HistoryEntry| e@) == spec_drop_fixups(
            entries@.map_values(|e: HistoryEntry| e@),
        ),
        forall|k: int| 0 <= k < r@.len() ==> !spec_is_fixup_subject(#[trigger] r@[k]@.subject),
{
    let ghost ev = entries@.map_values(|e: HistoryEntry| e@);
    let mut r: Vec<HistoryEntry> = Vec::new();
    let mut i: usize = 0;
    proof {
        assert(ev.skip(0) =~= ev);
        assert(r@.map_values(|e: HistoryEntry| e@) + spec_drop_fixups(ev) =~= spec_drop_fixups(
            ev,
        ));
    }
    while i < entries.len()
        invariant
            ev == entries@.map_values(|e: HistoryEntry| e@),
            i <= entries.len(),
            spec_drop_fixups(ev) == r@.map_values(|e: HistoryEntry| e@) + spec_drop_fixups(
                ev.skip(i as int),
            ),
        decreases entries.len() - i,
    {
        let ghost cur = ev.skip(i as int);
        proof {
            assert(cur[0] == ev[i as int]);
            assert(cur.drop_first() =~= ev.skip(i as int + 1));
        }
        if !is_fixup_subject(entries[i].subject.as_str()) {
            let ghost r0 = r@;
            let kept = HistoryEntry {
                hash: entries[i].hash.clone(),
                subject: entries[i].subject.clone(),
            };
            proof {
                assert(kept@ == ev[i as int]);
            }
            r.push(kept);
            proof {
                assert(r@.map_values(|e: HistoryEntry| e@) =~= r0.map_values(
                    |e: HistoryEntry| e@,
                ).push(r@[r0.len() as int]@));
                assert(r@.map_values(|e: HistoryEntry| e@) + spec_drop_fixups(
                    ev.skip(i as int + 1),
                ) =~= r0.map_values(|e: HistoryEntry| e@) + spec_drop_fixups(cur));
            }
        }
        i = i + 1;
    }
    proof {
        assert(ev.skip(entries@.len() as int) =~= Seq::<HistoryEntryV>::empty());
        assert(r@.map_values(|e: HistoryEntry| e@) + spec_drop_fixups(
            ev.skip(entries@.len() as int),
        ) =~= r@.map_values(|e: HistoryEntry| e@));
        assert forall|k: int| 0 <= k < r@.len() implies !spec_is_fixup_subject(
            #[trigger] r@[k]@.subject,
        ) by {
            assert(r@.map_values(|e: HistoryEntry| e@)[k] == r@[k]@);
            lemma_drop_fixups_clean(ev, k);
        }
    }
    r
}

/// The candidate bound: everything where the bound is zero, else the first
/// `max_count` entries.
pub open spec fn spec_bounded<A>(s: Seq<A>, max_count: u32) -> Seq<A> {
    if max_count > 0 && s.len() > max_count as nat {
        s.take(max_count as int)
    } else {
        s
    }
}

/// Applies the candidate bound.
pub fn bound_entries(entries: Vec<HistoryEntry>, max_count: u32) -> (r: Vec<HistoryEntry>)
    ensures
        r@.map_values(|e: HistoryEntry| e@) == spec_bounded(
            entries@.map_values(|e: HistoryEntry| e@),
            max_count,
        ),
{
    let mut entries = entries;
    let ghost ev = entries@.map_values(|e: HistoryEntry| e@);
    if max_count > 0 && entries.len() > max_count as usize {
        entries.truncate(max_count as usize);
        proof {
            assert(entries@.map_values(|e: HistoryEntry| e@) =~= ev.take(max_count as int));
        }
    }
    entries
}

/// The file-history candidates read from the log output: entries with a
/// hash, fixup- and squash-tagged subjects excluded, bounded by `max_count`
/// when it is set (zero means unbounded).
pub open spec fn spec_file_history(out: Seq<char>, max_count: u32) -> Seq<HistoryEntryV> {
    spec_bounded(
        spec_drop_fixups(spec_history_entries(git::spec_output_lines(out))),
        max_count,
    )
}

/// Reads the file-history candidates out of the log output.  No result entry
/// is fixup- or squash-tagged.
pub fn file_history(out: &str, max_count: u32) -> (r: Vec<HistoryEntry>)
    ensures
        r@.map_values(|e: HistoryEntry| e@) == spec_file_history(out@, max_count),
        forall|k: int| 0 <= k < r@.len() ==> !spec_is_fixup_subject(#[trigger] r@[k]@.subject),
{
    let entries = parse_history_lines(out);
    let kept = drop_fixups(entries);
    let r = bound_entries(kept, max_count);
    proof {
        let filtered = spec_drop_fixups(spec_history_entries(git::spec_output_lines(out@)));
        let rv = r@.map_values(|e: HistoryEntry| e@);
        assert(rv == spec_bounded(filtered, max_count));
        assert(rv.len() == r@.len());
        assert forall|k: int| 0 <= k < r@.len() implies !spec_is_fixup_subject(
            #[trigger] r@[k]@.subject,
        ) by {
            assert(rv[k] == r@[k]@);
            assert(0 <= k < rv.len());
            if max_count > 0 && filtered.len() > max_count as nat {
                assert(rv[k] == filtered.take(max_count as int)[k]);
            }
            assert(rv[k] == filtered[k]);
            lemma_drop_fixups_clean(spec_history_entries(git::spec_output_lines(out@)), k);
        }
    }
    r
}

/// An order-preserving record of the commit ids already emitted, backed by a
/// vector; membership is what matters, the order carries no meaning.
pub struct SeenSet {
    ids: Vec<String>,
}

impl View for SeenSet {
    type V = Seq<Seq<char>>;

    closed spec fn view(&self) -> Seq<Seq<char>> {
        self.ids@.map_values(|s: String| s@)
    }
}

impl SeenSet {
    /// An empty record.
    pub fn new() -> (r: Self)
        ensures
            r@ == Seq::<Seq<char>>::empty(),
    {
        let r = SeenSet { ids: Vec::new() };
        proof {
            assert(r@ =~= Seq::<Seq<char>>::empty());
        }
        r
    }

    /// Whether `id` was recorded.
    pub fn contains(&self, id: &str) -> (r: bool)
        ensures
            r == self@.contains(id@),
    {
        let mut k: usize = 0;
        while k < self.ids.len()
            invariant
                k <= self.ids.len(),
                forall|j: int| 0 <= j < k ==> #[trigger] self.ids@[j]@ != id@,
            decreases self.ids.len() - k,
        {
            if text::str_eq(self.ids[k].as_str(), id) {
                proof {
                    assert(self@[k as int] == id@);
                }
                return true;
            }
            k = k + 1;
        }
        proof {
            assert(forall|j: int| 0 <= j < self@.len() ==> #[trigger] self@[j] != id@);
        }
        false
    }

    /// Records `id`.
    pub fn insert(&mut self, id: String)
        ensures
            final(self)@ == old(self)@.push(id@),
    {
        let ghost v0 = self@;
        self.ids.push(id);
        proof {
            assert(self@ =~= v0.push(self.ids@[v0.len() as int]@));
        }
    }
}

/// First-seen-wins deduplication of a tagged stream: an id in `seen` is
/// dropped, a kept id joins `seen` for the rest of the stream.
pub open spec fn spec_dedup(s: Seq<SourcedCommitV>, seen: Seq<Seq<char>>) -> Seq<SourcedCommitV>
    decreases s.len(),
{
    if s.len() == 0 {
        Seq::empty()
    } else if seen.contains(s[0].commit) {
        spec_dedup(s.drop_first(), seen)
    } else {
        seq![s[0]] + spec_dedup(s.drop_first(), seen.push(s[0].commit))
    }
}

/// One strategy's ids, each tagged with the strategy.
pub open spec fn spec_tagged(ids: Seq<Seq<char>>, src: Source) -> Seq<SourcedCommitV> {
    Seq::new(ids.len(), |i: int| SourcedCommitV { commit: ids[i], source: src })
}

/// The merged candidate stream: the strategies' results in the fixed priority
/// order — recent, blame, file — deduplicated by commit id, first seen wins.
/// A disabled strategy contributes an empty result.
pub open spec fn spec_merged(
    recent: Seq<Seq<char>>,
    blame: Seq<Seq<char>>,
    file: Seq<Seq<char>>,
) -> Seq<SourcedCommitV> {
    spec_dedup(
        spec_tagged(recent, Source::Recent) + spec_tagged(blame, Source::Blame) + spec_tagged(
            file,
            Source::File,
        ),
        Seq::empty(),
    )
}

/// Deduplication processes a concatenation left part first: the right part
/// is deduplicated against `seen` grown by what the left part emitted.
pub proof fn lemma_dedup_concat(
    a: Seq<SourcedCommitV>,
    b: Seq<SourcedCommitV>,
    seen: Seq<Seq<char>>,
)
    ensures
        spec_dedup(a + b, seen) == spec_dedup(a, seen) + spec_dedup(
            b,
            seen + ids_of(spec_dedup(a, seen)),
        ),
    decreases a.len(),
{
    if a.len() == 0 {
        assert(a + b =~= b);
        assert(seen + ids_of(spec_dedup(a, seen)) =~= seen);
        assert(spec_dedup(a, seen) + spec_dedup(b, seen) =~= spec_dedup(b, seen));
    } else {
        assert((a + b)[0] == a[0]);
        assert((a + b).drop_first() =~= a.drop_first() + b);
        if seen.contains(a[0].commit) {
            lemma_dedup_concat(a.drop_first(), b, seen);
        } else {
            let grown = seen.push(a[0].commit);
            lemma_dedup_concat(a.drop_first(), b, grown);
            let rest = spec_dedup(a.drop_first(), grown);
            assert(ids_of(seq![a[0]] + rest) =~= seq![a[0].commit] + ids_of(rest));
            assert(seen + (seq![a[0].commit] + ids_of(rest)) =~= grown + ids_of(rest));
            assert(seq![a[0]] + (rest + spec_dedup(b, grown + ids_of(rest))) =~= (seq![a[0]]
                + rest) + spec_dedup(b, grown + ids_of(rest)));
        }
    }
}

/// An incremental merger: feed each strategy's commit ids in priority order
/// and take the candidates that batch newly contributes — an id a previous
/// batch emitted is dropped.  What all batches emit together equals the
/// deduplication of everything fed, so the caller can hand each batch on
/// while later strategies are still being discovered.
pub struct Merger {
    state: MergerState,
}

/// The merger's record: what was fed, and which ids were emitted.
struct MergerState {
    seen: SeenSet,
    history: Ghost<Seq<SourcedCommitV>>,
}

impl MergerState {
    /// The record of a merger that has seen nothing.
    fn empty() -> (r: Self)
        ensures
            r.seen@ == Seq::<Seq<char>>::empty(),
            r.history@ == Seq::<SourcedCommitV>::empty(),
    {
        MergerState { seen: SeenSet::new(), history: Ghost(Seq::empty()) }
    }
}

impl Merger {
    /// Everything fed so far, tagged, in order.
    pub closed spec fn stream(&self) -> Seq<SourcedCommitV> {
        self.state.history@
    }

    #[verifier::type_invariant]
    spec fn wf(&self) -> bool {
        self.state.seen@ == ids_of(spec_dedup(self.state.history@, Seq::empty()))
    }

    /// A merger that has seen nothing.
    pub fn new() -> (r: Self)
        ensures
            r.stream() == Seq::<SourcedCommitV>::empty(),
    {
        let state = MergerState::empty();
        proof {
            assert(state.seen@ =~= ids_of(spec_dedup(state.history@, Seq::empty())));
        }
        Merger { state }
    }

    /// Feeds one strategy's ids and returns the candidates they newly add:
    /// the deduplication of the grown stream is what it was plus exactly this
    /// batch.
    pub fn push_source(&mut self, ids: &Vec<String>, src: Source) -> (emitted: Vec<SourcedCommit>)
        ensures
            final(self).stream() == old(self).stream() + spec_tagged(
                ids@.map_values(|s: String| s@),
                src,
            ),
            spec_dedup(final(self).stream(), Seq::empty()) == spec_dedup(
                old(self).stream(),
                Seq::empty(),
            ) + emitted@.map_values(|e: SourcedCommit| e@),
    {
        proof {
            use_type_invariant(&*self);
        }
        let mut st = MergerState::empty();
        proof {
            assert(st.seen@ =~= ids_of(spec_dedup(st.history@, Seq::empty())));
        }
        core::mem::swap(&mut st, &mut self.state);
        let ghost old_stream = st.history@;
        let ghost old_seen = st.seen@;
        let ghost idsv = ids@.map_values(|s: String| s@);
        let mut emitted: Vec<SourcedCommit> = Vec::new();
        let mut i: usize = 0;
        proof {
            assert(spec_tagged(idsv.skip(0), src) =~= spec_tagged(idsv, src));
            assert(emitted@.map_values(|e: SourcedCommit| e@) + spec_dedup(
                spec_tagged(idsv, src),
                old_seen,
            ) =~= spec_dedup(spec_tagged(idsv, src), old_seen));
            assert(old_seen + ids_of(emitted@.map_values(|e: SourcedCommit| e@)) =~= old_seen);
        }
        while i < ids.len()
            invariant
                idsv == ids@.map_values(|s: String| s@),
                i <= ids.len(),
                st.history@ == old_stream,
                emitted@.map_values(|e: SourcedCommit| e@) + spec_dedup(
                    spec_tagged(idsv.skip(i as int), src),
                    st.seen@,
                ) == spec_dedup(spec_tagged(idsv, src), old_seen),
                st.seen@ == old_seen + ids_of(emitted@.map_values(|e: SourcedCommit| e@)),
            decreases ids.len() - i,
        {
            let ghost cur = spec_tagged(idsv.skip(i as int), src);
            let ghost s0 = st.seen@;
            proof {
                assert(cur[0] == SourcedCommitV { commit: idsv[i as int], source: src });
                assert(cur.drop_first() =~= spec_tagged(idsv.skip(i as int + 1), src));
            }
            if !st.seen.contains(ids[i].as_str()) {
                let ghost e0 = emitted@;
                emitted.push(SourcedCommit { commit: ids[i].clone(), source: src });
                st.seen.insert(ids[i].clone());
                proof {
                    let ev = emitted@.map_values(|e: SourcedCommit| e@);
                    let e0v = e0.map_values(|e: SourcedCommit| e@);
                    assert(st.seen@ == s0.push(idsv[i as int]));
                    assert(ev =~= e0v.push(emitted@[e0.len() as int]@));
                    assert(spec_dedup(cur, s0) == seq![cur[0]] + spec_dedup(
                        cur.drop_first(),
                        s0.push(cur[0].commit),
                    ));
                    assert(ev + spec_dedup(cur.drop_first(), st.seen@) =~= e0v + spec_dedup(
                        cur,
                        s0,
                    ));
                    assert(ids_of(ev) =~= ids_of(e0v).push(idsv[i as int]));
                    assert(st.seen@ =~= old_seen + ids_of(ev));
                }
            }
            i = i + 1;
        }
        let ghost tagged = spec_tagged(idsv, src);
        proof {
            assert(spec_tagged(idsv.skip(ids@.len() as int), src)
                =~= Seq::<SourcedCommitV>::empty());
            assert(emitted@.map_values(|e: SourcedCommit| e@) + spec_dedup(
                spec_tagged(idsv.skip(ids@.len() as int), src),
                st.seen@,
            ) =~= emitted@.map_values(|e: SourcedCommit| e@));
        }
        st.history = Ghost(old_stream + tagged);
        proof {
            let ev = emitted@.map_values(|e: SourcedCommit| e@);
            lemma_dedup_concat(old_stream, tagged, Seq::empty());
            assert(Seq::<Seq<char>>::empty() + ids_of(spec_dedup(old_stream, Seq::empty()))
                =~= old_seen);
            assert(ev == spec_dedup(tagged, old_seen));
            assert(spec_dedup(st.history@, Seq::empty()) == spec_dedup(
                old_stream,
                Seq::empty(),
            ) + ev);
            assert(ids_of(spec_dedup(old_stream, Seq::empty()) + ev) =~= ids_of(
                spec_dedup(old_stream, Seq::empty()),
            ) + ids_of(ev));
            assert(st.seen@ =~= ids_of(spec_dedup(st.history@, Seq::empty())));
        }
        self.state = st;
        emitted
    }
}

/// Merges the three strategies' commit ids in the fixed priority order —
/// recent, then blame, then file — deduplicating by commit id, first seen
/// wins.  The result repeats no commit id.  Pass an empty list for a disabled
/// strategy.
pub fn merge_candidates(recent: &Vec<String>, blame: &Vec<String>, file: &Vec<String>) -> (r: Vec<
    SourcedCommit,
>)
    ensures
        r@.map_values(|e: SourcedCommit| e@) == spec_merged(
            recent@.map_values(|s: String| s@),
            blame@.map_values(|s: String| s@),
            file@.map_values(|s: String| s@),
        ),
        ids_of(r@.map_values(|e: SourcedCommit| e@)).no_duplicates(),
{
    let ghost rv = recent@.map_values(|s: String| s@);
    let ghost bv = blame@.map_values(|s: String| s@);
    let ghost fv = file@.map_values(|s: String| s@);
    let mut merger = Merger::new();
    let mut r = merger.push_source(recent, Source::Recent);
    let mut from_blame = merger.push_source(blame, Source::Blame);
    let mut from_file = merger.push_source(file, Source::File);
    let ghost r1 = r@.map_values(|e: SourcedCommit| e@);
    let ghost r2 = from_blame@.map_values(|e: SourcedCommit| e@);
    let ghost r3 = from_file@.map_values(|e: SourcedCommit| e@);
    r.append(&mut from_blame);
    r.append(&mut from_file);
    proof {
        assert(Seq::<SourcedCommitV>::empty() + spec_tagged(rv, Source::Recent) =~= spec_tagged(
            rv,
            Source::Recent,
        ));
        assert(merger.stream() =~= spec_tagged(rv, Source::Recent) + spec_tagged(
            bv,
            Source::Blame,
        ) + spec_tagged(fv, Source::File));
        assert(spec_dedup(Seq::<SourcedCommitV>::empty(), Seq::<Seq<char>>::empty())
            =~= Seq::<SourcedCommitV>::empty());
        assert(Seq::<SourcedCommitV>::empty() + r1 =~= r1);
        assert(r@.map_values(|e: SourcedCommit| e@) =~= (r1 + r2) + r3);
        assert(r@.map_values(|e: SourcedCommit| e@) =~= spec_merged(rv, bv, fv));
        lemma_merged_no_duplicates(rv, bv, fv);
    }
    r
}

/// The ids of a tagged stream.
pub open spec fn ids_of(s: Seq<SourcedCommitV>) -> Seq<Seq<char>> {
    Seq::new(s.len(), |i: int| s[i].commit)
}

/// Deduplication emits no id in `seen` and no id twice.
pub proof fn lemma_dedup_unique(s: Seq<SourcedCommitV>, seen: Seq<Seq<char>>)
    ensures
        forall|i: int|
            0 <= i < spec_dedup(s, seen).len() ==> !seen.contains(
                #[trigger] spec_dedup(s, seen)[i].commit,
            ),
        forall|i: int, j: int|
            0 <= i < j < spec_dedup(s, seen).len() ==> #[trigger] spec_dedup(s, seen)[i].commit
                != #[trigger] spec_dedup(s, seen)[j].commit,
    decreases s.len(),
{
    if s.len() == 0 {
    } else if seen.contains(s[0].commit) {
        lemma_dedup_unique(s.drop_first(), seen);
    } else {
        let c = s[0].commit;
        let grown = seen.push(c);
        lemma_dedup_unique(s.drop_first(), grown);
        let rest = spec_dedup(s.drop_first(), grown);
        let whole = spec_dedup(s, seen);
        assert(whole == seq![s[0]] + rest);
        assert(grown[seen.len() as int] == c);
        assert(grown.contains(c));
        assert forall|x: Seq<char>| seen.contains(x) implies grown.contains(x) by {
            let w = choose|w: int| 0 <= w < seen.len() && seen[w] == x;
            assert(grown[w] == x);
        }
        assert forall|i: int| 0 <= i < whole.len() implies !seen.contains(whole[i].commit) by {
            if i > 0 {
                assert(whole[i] == rest[i - 1]);
                assert(!grown.contains(rest[i - 1].commit));
            }
        }
        assert forall|i: int, j: int| 0 <= i < j < whole.len() implies whole[i].commit
            != whole[j].commit by {
            if i == 0 {
                assert(whole[j] == rest[j - 1]);
                assert(!grown.contains(rest[j - 1].commit));
            } else {
                assert(whole[i] == rest[i - 1]);
                assert(whole[j] == rest[j - 1]);
            }
        }
    }
}

/// The tag of the first occurrence of `c` in the stream (meaningful only
/// where `c` occurs).
pub open spec fn spec_first_source(s: Seq<SourcedCommitV>, c: Seq<char>) -> Source
    decreases s.len(),
{
    if s.len() == 0 {
        Source::Recent
    } else if s[0].commit == c {
        s[0].source
    } else {
        spec_first_source(s.drop_first(), c)
    }
}

/// Deduplication emits every id of the stream that is not yet seen, tagged as
/// at the id's first occurrence.
pub proof fn lemma_dedup_first_wins(s: Seq<SourcedCommitV>, seen: Seq<Seq<char>>, c: Seq<char>)
    requires
        ids_of(s).contains(c),
        !seen.contains(c),
    ensures
        exists|i: int|
            0 <= i < spec_dedup(s, seen).len() && #[trigger] spec_dedup(s, seen)[i].commit == c
                && spec_dedup(s, seen)[i].source == spec_first_source(s, c),
    decreases s.len(),
{
    let whole = spec_dedup(s, seen);
    if s[0].commit == c {
        assert(whole[0] == s[0]);
    } else {
        let w = choose|w: int| 0 <= w < ids_of(s).len() && ids_of(s)[w] == c;
        assert(ids_of(s.drop_first())[w - 1] == c);
        assert(ids_of(s.drop_first()).contains(c));
        if seen.contains(s[0].commit) {
            lemma_dedup_first_wins(s.drop_first(), seen, c);
        } else {
            let grown = seen.push(s[0].commit);
            assert forall|j: int| 0 <= j < grown.len() implies grown[j] != c by {
                if j < seen.len() {
                    assert(!seen.contains(c));
                }
            }
            assert(!grown.contains(c));
            lemma_dedup_first_wins(s.drop_first(), grown, c);
            let rest = spec_dedup(s.drop_first(), grown);
            let i = choose|i: int|
                0 <= i < rest.len() && #[trigger] rest[i].commit == c && rest[i].source
                    == spec_first_source(s.drop_first(), c);
            assert(whole[i + 1] == rest[i]);
        }
    }
}

/// The first occurrence in a concatenation lies in the left part where the
/// left part holds the id at all.
pub proof fn lemma_first_source_left(a: Seq<SourcedCommitV>, b: Seq<SourcedCommitV>, c: Seq<char>)
    requires
        ids_of(a).contains(c),
    ensures
        spec_first_source(a + b, c) == spec_first_source(a, c),
    decreases a.len(),
{
    let w = choose|w: int| 0 <= w < ids_of(a).len() && ids_of(a)[w] == c;
    assert((a + b)[0] == a[0]);
    if a[0].commit != c {
        assert(ids_of(a.drop_first())[w - 1] == c);
        assert(ids_of(a.drop_first()).contains(c));
        lemma_first_source_left(a.drop_first(), b, c);
        assert((a + b).drop_first() =~= a.drop_first() + b);
    }
}

/// In a uniformly tagged stream the first occurrence carries that tag.
pub proof fn lemma_first_source_tagged(ids: Seq<Seq<char>>, src: Source, c: Seq<char>)
    requires
        ids.contains(c),
    ensures
        spec_first_source(spec_tagged(ids, src), c) == src,
    decreases ids.len(),
{
    let t = spec_tagged(ids, src);
    if ids[0] == c {
    } else {
        let w = choose|w: int| 0 <= w < ids.len() && ids[w] == c;
        assert(ids.drop_first()[w - 1] == c);
        assert(ids.drop_first().contains(c));
        lemma_first_source_tagged(ids.drop_first(), src, c);
        assert(t.drop_first() =~= spec_tagged(ids.drop_first(), src));
    }
}

/// Law: the merged stream repeats no commit id — mapped to ids it has no
/// duplicates, so turning those ids into a set keeps the length.
pub proof fn lemma_merged_no_duplicates(
    recent: Seq<Seq<char>>,
    blame: Seq<Seq<char>>,
    file: Seq<Seq<char>>,
)
    ensures
        ids_of(spec_merged(recent, blame, file)).no_duplicates(),
        ids_of(spec_merged(recent, blame, file)).to_set().len() == spec_merged(
            recent,
            blame,
            file,
        ).len(),
{
    let s = spec_tagged(recent, Source::Recent) + spec_tagged(blame, Source::Blame) + spec_tagged(
        file,
        Source::File,
    );
    lemma_dedup_unique(s, Seq::empty());
    let merged = spec_merged(recent, blame, file);
    let ids = ids_of(merged);
    assert forall|i: int, j: int| 0 <= i < ids.len() && 0 <= j < ids.len() && i != j implies ids[i]
        != ids[j] by {
        if i < j {
            assert(merged[i].commit != merged[j].commit);
        } else {
            assert(merged[j].commit != merged[i].commit);
        }
    }
    ids.unique_seq_to_set();
}

/// Law: a commit id found by both the recent and the blame strategy is
/// emitted exactly once, tagged with the recent strategy — earlier sources
/// win ties.
pub proof fn lemma_merged_priority(
    recent: Seq<Seq<char>>,
    blame: Seq<Seq<char>>,
    file: Seq<Seq<char>>,
    c: Seq<char>,
)
    requires
        recent.contains(c),
        blame.contains(c),
    ensures
        exists|i: int|
            0 <= i < spec_merged(recent, blame, file).len() && #[trigger] spec_merged(
                recent,
                blame,
                file,
            )[i].commit == c && spec_merged(recent, blame, file)[i].source == Source::Recent,
        forall|i: int|
            0 <= i < spec_merged(recent, blame, file).len() && #[trigger] spec_merged(
                recent,
                blame,
                file,
            )[i].commit == c ==> spec_merged(recent, blame, file)[i].source == Source::Recent,
{
    let tr = spec_tagged(recent, Source::Recent);
    let tb = spec_tagged(blame, Source::Blame);
    let tf = spec_tagged(file, Source::File);
    let s = tr + tb + tf;
    let merged = spec_merged(recent, blame, file);
    let w = choose|w: int| 0 <= w < recent.len() && recent[w] == c;
    assert(ids_of(tr)[w] == c);
    assert(ids_of(tr).contains(c));
    assert(ids_of(s)[w] == c);
    assert(ids_of(s).contains(c));
    lemma_first_source_tagged(recent, Source::Recent, c);
    assert(tr + tb + tf =~= tr + (tb + tf));
    lemma_first_source_left(tr, tb + tf, c);
    assert(spec_first_source(s, c) == Source::Recent);
    lemma_dedup_first_wins(s, Seq::empty(), c);
    lemma_dedup_unique(s, Seq::empty());
    let i = choose|i: int|
        0 <= i < merged.len() && #[trigger] merged[i].commit == c && merged[i].source
            == spec_first_source(s, c);
    assert forall|j: int| 0 <= j < merged.len() && #[trigger] merged[j].commit == c implies
        merged[j].source == Source::Recent by {
        if j != i {
            if j < i {
                assert(merged[j].commit != merged[i].commit);
            } else {
                assert(merged[i].commit != merged[j].commit);
            }
        }
    }
}

/// The bound for the recent-history query: the configured candidate bound,
/// or a small default where none is set — the query itself needs one.
pub open spec fn spec_recent_bound(max_count: u32) -> u32 {
    if max_count > 0 {
        max_count
    } else {
        10
    }
}

/// Picks the bound for the recent-history query.
pub fn recent_bound(max_count: u32) -> (r: u32)
    ensures
        r == spec_recent_bound(max_count),
{
    if max_count > 0 {
        max_count
    } else {
        10
    }
}

/// The placeholder token that format strings carry for the source tag.
pub fn source_placeholder() -> (r: &'static str)
    ensures
        r@ == "%(smash:source)"@,
{
    "%(smash:source)"
}

/// The format for one source: the configured format string with every
/// placeholder token replaced by the source's label.
pub fn format_for_source(format: &str, label: &str) -> (r: String)
    ensures
        r@ == text::spec_replaced(format@, "%(smash:source)"@, label@),
{
    proof {
        reveal_strlit("%(smash:source)");
    }
    text::replace_all(format, source_placeholder(), label)
}

/// The configured label for a source.
pub fn source_label<'a>(config: &'a crate::config::Config, src: Source) -> (r: &'a str)
    ensures
        r@ == match src {
            Source::Recent => config.source_label_recent@,
            Source::Blame => config.source_label_blame@,
            Source::File => config.source_label_files@,
        },
{
    match src {
        Source::Recent => config.source_label_recent.as_str(),
        Source::Blame => config.source_label_blame.as_str(),
        Source::File => config.source_label_files.as_str(),
    }
}

/// The hashes of a list of entries.
pub fn entry_ids(entries: &Vec<HistoryEntry>) -> (r: Vec<String>)
    ensures
        r@.map_values(|s: String| s@) == entries@.map_values(|e: HistoryEntry| e@.hash),
{
    let mut r: Vec<String> = Vec::new();
    let mut i: usize = 0;
    while i < entries.len()
        invariant
            i <= entries.len(),
            r@.map_values(|s: String| s@) =~= entries@.map_values(|e: HistoryEntry| e@.hash).take(
                i as int,
            ),
        decreases entries.len() - i,
    {
        let ghost r0 = r@;
        r.push(entries[i].hash.clone());
        proof {
            assert(r@.map_values(|s: String| s@) =~= r0.map_values(|s: String| s@).push(
                r@[r0.len() as int]@,
            ));
            assert(entries@.map_values(|e: HistoryEntry| e@.hash).take(i as int + 1)
                =~= entries@.map_values(|e: HistoryEntry| e@.hash).take(i as int).push(
                entries@[i as int]@.hash,
            ));
        }
        i = i + 1;
    }
    proof {
        assert(entries@.map_values(|e: HistoryEntry| e@.hash).take(entries@.len() as int)
            =~= entries@.map_values(|e: HistoryEntry| e@.hash));
    }
    r
}

} // verus!
