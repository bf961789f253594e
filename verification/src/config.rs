//! The configuration rewrite engine: a source document is split into lines,
//! each line is rewritten under the line model of `ini`, and every output
//! line is terminated with CRLF. A backup of the live file is taken on the
//! first run and is the read source of every rewrite thereafter, so repeated
//! rewrites always start from the original document.
use vstd::prelude::*;
use crate::ini::{
    spec_is_header, spec_line_events, spec_next_section, spec_out_line, LogEvent, Section,
    SpecLogEvent, process_line,
};
use crate::launcher::{spec_joined, join_path, SettingsInput};
use crate::text::{
    ascii, copy_bytes, is_decodable, lit_bytes, push_all, spec_decodable, spec_find,
    spec_starts_with, spec_trim, subvec, lemma_find,
};

verus! {

/// The engine configuration directory under the user profile.
pub const CONFIG_PATH: &'static str =
    "Documents\\Disney Interactive Studios\\Tron Evolution\\UnrealEngine3\\GridGame\\Config";

/// A line as handed out by the splitter, with a carriage return left over
/// from a CRLF terminator removed.
pub open spec fn spec_strip_cr(l: Seq<u8>) -> Seq<u8> {
    if l.len() > 0 && l.last() == 13 {
        l.drop_last()
    } else {
        l
    }
}

/// The lines of `src`: split at every line feed, dropping the terminator and
/// a carriage return directly before it. A final fragment without a line
/// feed is kept as it stands; a trailing line feed adds no empty line.
pub open spec fn spec_split_lines(src: Seq<u8>) -> Seq<Seq<u8>>
    decreases src.len(),
{
    if src.len() == 0 {
        Seq::<Seq<u8>>::empty()
    } else {
        match spec_find(src, 10u8) {
            Option::Some(i) => if 0 <= i < src.len() {
                seq![spec_strip_cr(src.take(i))] + spec_split_lines(src.skip(i + 1))
            } else {
                seq![src]
            },
            Option::None => seq![src],
        }
    }
}

/// The byte sequences held by a vector of lines.
pub open spec fn lines_view(ls: Seq<Vec<u8>>) -> Seq<Seq<u8>> {
    ls.map_values(|l: Vec<u8>| l@)
}

proof fn lemma_split_at_newline(c: Seq<u8>, rest: Seq<u8>)
    requires
        spec_find(c, 10u8) is None,
        rest.len() >= 1,
        rest[0] == 10,
    ensures
        spec_split_lines(c + rest) == seq![spec_strip_cr(c)] + spec_split_lines(rest.drop_first()),
{
    let whole = c + rest;
    lemma_find(c, 10u8);
    lemma_find(whole, 10u8);
    assert(whole[c.len() as int] == 10u8);
    assert(forall|j: int| 0 <= j < c.len() ==> whole[j] == c[j]);
    match spec_find(whole, 10u8) {
        Option::Some(k) => {
            assert(k == c.len());
            assert(whole.take(k) =~= c);
            assert(whole.skip(k + 1) =~= rest.drop_first());
        },
        Option::None => {
            assert(whole[c.len() as int] != 10u8);
        },
    }
}

proof fn lemma_split_no_newline(c: Seq<u8>)
    requires
        spec_find(c, 10u8) is None,
    ensures
        spec_split_lines(c) == if c.len() == 0 {
            Seq::<Seq<u8>>::empty()
        } else {
            seq![c]
        },
{
}

fn strip_cr(v: &Vec<u8>) -> (r: Vec<u8>)
    ensures
        r@ == spec_strip_cr(v@),
{
    if v.len() > 0 && v[v.len() - 1] == 13 {
        let r = subvec(v, 0, v.len() - 1);
        proof {
            assert(v@.subrange(0, v@.len() - 1) =~= v@.drop_last());
        }
        r
    } else {
        copy_bytes(v)
    }
}

/// Split a document into its lines, as the rewriter reads them.
pub fn split_lines(src: &Vec<u8>) -> (r: Vec<Vec<u8>>)
    ensures
        lines_view(r@) == spec_split_lines(src@),
{
    let mut out: Vec<Vec<u8>> = Vec::new();
    let mut cur: Vec<u8> = Vec::new();
    let mut i: usize = 0;
    proof {
        assert(cur@ + src@.skip(0) =~= src@);
        assert(lines_view(out@) =~= Seq::<Seq<u8>>::empty());
        assert(Seq::<Seq<u8>>::empty() + spec_split_lines(src@) =~= spec_split_lines(src@));
    }
    while i < src.len()
        invariant
            0 <= i <= src@.len(),
            spec_find(cur@, 10u8) is None,
            lines_view(out@) + spec_split_lines(cur@ + src@.skip(i as int)) == spec_split_lines(
                src@,
            ),
        decreases src@.len() - i,
    {
        let ghost c = cur@;
        let ghost rest = src@.skip(i as int);
        proof {
            assert(rest[0] == src@[i as int]);
        }
        let b = src[i];
        if b == 10 {
            proof {
                lemma_split_at_newline(c, rest);
                assert(rest.drop_first() =~= src@.skip(i + 1));
            }
            let lineout = strip_cr(&cur);
            proof {
                assert(lines_view(out@.push(lineout)) =~= lines_view(out@).push(spec_strip_cr(c)));
                assert(lines_view(out@).push(spec_strip_cr(c)) + spec_split_lines(
                    src@.skip(i + 1),
                ) =~= lines_view(out@) + (seq![spec_strip_cr(c)] + spec_split_lines(
                    src@.skip(i + 1),
                )));
            }
            out.push(lineout);
            cur = Vec::new();
            proof {
                assert(cur@ + src@.skip(i + 1) =~= src@.skip(i + 1));
            }
        } else {
            proof {
                lemma_find(c.push(b), 10u8);
                lemma_find(c, 10u8);
                assert(forall|j: int| 0 <= j < c.len() ==> c.push(b)[j] == c[j]);
                assert(c.push(b)[c.len() as int] == b);
                assert(spec_find(c.push(b), 10u8) is None);
                assert(c.push(b) + src@.skip(i + 1) =~= c + rest);
            }
            cur.push(b);
        }
        i = i + 1;
    }
    proof {
        assert(cur@ + src@.skip(src@.len() as int) =~= cur@);
        lemma_split_no_newline(cur@);
    }
    if cur.len() > 0 {
        proof {
            assert(lines_view(out@.push(cur)) =~= lines_view(out@).push(cur@));
            assert(lines_view(out@).push(cur@) =~= lines_view(out@) + seq![cur@]);
        }
        out.push(cur);
    } else {
        proof {
            assert(lines_view(out@) + Seq::<Seq<u8>>::empty() =~= lines_view(out@));
        }
    }
    out
}

/// The rewritten lines from position `k` on, given the section in force
/// there: one output line per decodable input line, undecodable lines
/// dropped.
pub open spec fn spec_out_lines(
    lines: Seq<Seq<u8>>,
    k: int,
    sec: Section,
    s: SettingsInput,
) -> Seq<Seq<u8>>
    decreases lines.len() - k,
{
    if k < 0 || k >= lines.len() {
        Seq::<Seq<u8>>::empty()
    } else {
        let l = lines[k];
        if spec_decodable(l) {
            seq![spec_out_line(l, sec, s)] + spec_out_lines(
                lines,
                k + 1,
                spec_next_section(l, sec),
                s,
            )
        } else {
            spec_out_lines(lines, k + 1, sec, s)
        }
    }
}

/// The observer events from position `k` on: the per-line events of
/// decodable lines, and a decode error naming the one-based line number of
/// every line that is not text.
pub open spec fn spec_doc_events(
    lines: Seq<Seq<u8>>,
    k: int,
    sec: Section,
    s: SettingsInput,
) -> Seq<SpecLogEvent>
    decreases lines.len() - k,
{
    if k < 0 || k >= lines.len() {
        Seq::<SpecLogEvent>::empty()
    } else {
        let l = lines[k];
        if spec_decodable(l) {
            spec_line_events(l, sec, s) + spec_doc_events(
                lines,
                k + 1,
                spec_next_section(l, sec),
                s,
            )
        } else {
            seq![(SpecLogEvent::DecodeError { line: k + 1 })] + spec_doc_events(
                lines,
                k + 1,
                sec,
                s,
            )
        }
    }
}

/// Each line followed by a CRLF terminator, in order.
pub open spec fn spec_crlf_concat(ls: Seq<Seq<u8>>) -> Seq<u8>
    decreases ls.len(),
{
    if ls.len() == 0 {
        Seq::<u8>::empty()
    } else {
        ls[0] + seq![13u8, 10u8] + spec_crlf_concat(ls.drop_first())
    }
}

proof fn lemma_crlf_cons(x: Seq<u8>, t: Seq<Seq<u8>>)
    ensures
        spec_crlf_concat(seq![x] + t) == x + seq![13u8, 10u8] + spec_crlf_concat(t),
{
    let w = seq![x] + t;
    assert(w[0] == x);
    assert(w.drop_first() =~= t);
}

/// The full rewritten document produced from the source bytes `src` under
/// settings `s`.
pub open spec fn spec_rewritten(src: Seq<u8>, s: SettingsInput) -> Seq<u8> {
    spec_crlf_concat(spec_out_lines(spec_split_lines(src), 0, Section::Other, s))
}

/// Every observer event of one rewrite of `src` under `s`.
pub open spec fn spec_all_events(src: Seq<u8>, s: SettingsInput) -> Seq<SpecLogEvent> {
    spec_doc_events(spec_split_lines(src), 0, Section::Other, s)
}

/// The mathematical form of a sequence of observer events.
pub open spec fn events_view(es: Seq<LogEvent>) -> Seq<SpecLogEvent> {
    es.map_values(|e: LogEvent| e@)
}

/// What one document rewrite produced: the new document and the observer
/// events, in the order they were reported.
pub struct RewriteOutput {
    pub content: Vec<u8>,
    pub events: Vec<LogEvent>,
}

/// Rewrite a whole document: one CRLF-terminated output line per decodable
/// input line, undecodable lines dropped with a decode-error event.
pub fn rewrite_document(source: &Vec<u8>, settings: &SettingsInput) -> (r: RewriteOutput)
    ensures
        r.content@ == spec_rewritten(source@, *settings),
        events_view(r.events@) == spec_all_events(source@, *settings),
{
    let lines = split_lines(source);
    let ghost ls = lines_view(lines@);
    let mut content: Vec<u8> = Vec::new();
    let mut events: Vec<LogEvent> = Vec::new();
    let mut sec = Section::Other;
    let mut k: usize = 0;
    proof {
        assert(content@ + spec_crlf_concat(spec_out_lines(ls, 0, Section::Other, *settings))
            =~= spec_crlf_concat(spec_out_lines(ls, 0, Section::Other, *settings)));
        assert(events_view(events@) =~= Seq::<SpecLogEvent>::empty());
        assert(events_view(events@) + spec_doc_events(ls, 0, Section::Other, *settings)
            =~= spec_doc_events(ls, 0, Section::Other, *settings));
    }
    while k < lines.len()
        invariant
            0 <= k <= lines@.len(),
            ls == lines_view(lines@),
            content@ + spec_crlf_concat(spec_out_lines(ls, k as int, sec, *settings))
                == spec_crlf_concat(spec_out_lines(ls, 0, Section::Other, *settings)),
            events_view(events@) + spec_doc_events(ls, k as int, sec, *settings)
                == spec_doc_events(ls, 0, Section::Other, *settings),
        decreases lines@.len() - k,
    {
        let line = &lines[k];
        proof {
            assert(ls[k as int] == lines@[k as int]@);
        }
        if is_decodable(line) {
            let (out, evt, nsec) = process_line(line, sec, settings);
            proof {
                let ghost x = spec_out_line(line@, sec, *settings);
                let ghost tail = spec_out_lines(
                    ls,
                    k + 1,
                    spec_next_section(line@, sec),
                    *settings,
                );
                lemma_crlf_cons(x, tail);
                assert((content@ + out@).push(13u8).push(10u8) + spec_crlf_concat(tail)
                    =~= content@ + (x + seq![13u8, 10u8] + spec_crlf_concat(tail)));
            }
            push_all(&mut content, &out);
            content.push(13);
            content.push(10);
            proof {
                let ghost etail = spec_doc_events(
                    ls,
                    k + 1,
                    spec_next_section(line@, sec),
                    *settings,
                );
                assert(spec_doc_events(ls, k as int, sec, *settings) == spec_line_events(
                    line@,
                    sec,
                    *settings,
                ) + etail);
            }
            match evt {
                Option::Some(e) => {
                    proof {
                        assert(events_view(events@.push(e)) =~= events_view(events@).push(e@));
                        assert(events_view(events@).push(e@) + spec_doc_events(
                            ls,
                            k + 1,
                            spec_next_section(line@, sec),
                            *settings,
                        ) =~= events_view(events@) + (seq![e@] + spec_doc_events(
                            ls,
                            k + 1,
                            spec_next_section(line@, sec),
                            *settings,
                        )));
                    }
                    events.push(e);
                },
                Option::None => {
                    proof {
                        assert(Seq::<SpecLogEvent>::empty() + spec_doc_events(
                            ls,
                            k + 1,
                            spec_next_section(line@, sec),
                            *settings,
                        ) =~= spec_doc_events(
                            ls,
                            k + 1,
                            spec_next_section(line@, sec),
                            *settings,
                        ));
                    }
                },
            }
            sec = nsec;
        } else {
            let e = LogEvent::DecodeError { line: k + 1 };
            proof {
                assert(e@ == (SpecLogEvent::DecodeError { line: k + 1 as int }));
                assert(events_view(events@.push(e)) =~= events_view(events@).push(e@));
                assert(events_view(events@).push(e@) + spec_doc_events(
                    ls,
                    k + 1,
                    sec,
                    *settings,
                ) =~= events_view(events@) + (seq![e@] + spec_doc_events(ls, k + 1, sec, *settings)));
            }
            events.push(e);
        }
        k = k + 1;
    }
    proof {
        assert(content@ + Seq::<u8>::empty() =~= content@);
        assert(events_view(events@) + Seq::<SpecLogEvent>::empty() =~= events_view(events@));
    }
    RewriteOutput { content, events }
}

/// The view of an optional byte vector.
pub open spec fn opt_bytes(o: Option<Vec<u8>>) -> Option<Seq<u8>> {
    match o {
        Option::Some(v) => Option::Some(v@),
        Option::None => Option::None,
    }
}

/// The document a rewrite reads: the backup when one exists, else the live
/// file, which then becomes the backup.
pub open spec fn spec_backup_source(live: Seq<u8>, backup: Option<Seq<u8>>) -> Seq<u8> {
    match backup {
        Option::Some(b) => b,
        Option::None => live,
    }
}

/// What one full rewrite leaves behind: the backup document (created from
/// the live file on the first run, untouched afterwards), the new live
/// document, and the observer events.
pub struct ConfigRewrite {
    pub backup: Vec<u8>,
    pub live: Vec<u8>,
    pub events: Vec<LogEvent>,
}

/// One full rewrite of the engine configuration. `live` holds the bytes of
/// the live file, `backup` the bytes of the backup file when it exists. The
/// result names the backup to keep, the document to write over the live
/// file, and the observer events of the run.
pub fn rewrite_grid_engine_config(
    live: &Vec<u8>,
    backup: &Option<Vec<u8>>,
    settings: &SettingsInput,
) -> (r: ConfigRewrite)
    ensures
        r.backup@ == spec_backup_source(live@, opt_bytes(*backup)),
        r.live@ == spec_rewritten(r.backup@, *settings),
        events_view(r.events@) == spec_all_events(r.backup@, *settings),
{
    let source = match backup {
        Option::Some(b) => copy_bytes(b),
        Option::None => copy_bytes(live),
    };
    let out = rewrite_document(&source, settings);
    ConfigRewrite { backup: source, live: out.content, events: out.events }
}

/// The section in force just before line `i` is read, when reading starts
/// at line `k` with section `sec` and undecodable lines leave the section
/// unchanged.
pub open spec fn spec_section_at(lines: Seq<Seq<u8>>, k: int, i: int, sec: Section) -> Section
    decreases i - k,
{
    if i <= k {
        sec
    } else {
        let nsec = if 0 <= k < lines.len() && spec_decodable(lines[k]) {
            spec_next_section(lines[k], sec)
        } else {
            sec
        };
        spec_section_at(lines, k + 1, i, nsec)
    }
}

/// In a fully decodable document the rewrite keeps every line in place: the
/// output has exactly one line per input line, and line `i` of the output is
/// the rewrite of line `i` of the input under the section in force there.
pub proof fn lemma_lines_in_place(lines: Seq<Seq<u8>>, k: int, sec: Section, s: SettingsInput)
    requires
        0 <= k <= lines.len(),
        forall|i: int| k <= i < lines.len() ==> spec_decodable(lines[i]),
    ensures
        spec_out_lines(lines, k, sec, s).len() == lines.len() - k,
        forall|i: int|
            k <= i < lines.len() ==> spec_out_lines(lines, k, sec, s)[i - k] == spec_out_line(
                lines[i],
                spec_section_at(lines, k, i, sec),
                s,
            ),
    decreases lines.len() - k,
{
    if k < lines.len() {
        let nsec = spec_next_section(lines[k], sec);
        lemma_lines_in_place(lines, k + 1, nsec, s);
        let out = spec_out_lines(lines, k, sec, s);
        let rest = spec_out_lines(lines, k + 1, nsec, s);
        assert(out == seq![spec_out_line(lines[k], sec, s)] + rest);
        assert forall|i: int| k <= i < lines.len() implies out[i - k] == spec_out_line(
            lines[i],
            spec_section_at(lines, k, i, sec),
            s,
        ) by {
            if i == k {
                assert(out[0] == spec_out_line(lines[k], sec, s));
                assert(spec_section_at(lines, k, k, sec) == sec);
            } else {
                assert(out[i - k] == rest[i - k - 1]);
                assert(spec_section_at(lines, k, i, sec) == spec_section_at(
                    lines,
                    k + 1,
                    i,
                    nsec,
                ));
            }
        }
    }
}

/// How many lines from position `k` on decode as text.
pub open spec fn spec_decodable_count(lines: Seq<Seq<u8>>, k: int) -> int
    decreases lines.len() - k,
{
    if k < 0 || k >= lines.len() {
        0
    } else {
        (if spec_decodable(lines[k]) {
            1int
        } else {
            0int
        }) + spec_decodable_count(lines, k + 1)
    }
}

/// The rewrite emits exactly one output line per decodable input line:
/// undecodable lines are dropped, every other line keeps its place.
pub proof fn lemma_one_output_line_per_decodable_line(
    lines: Seq<Seq<u8>>,
    k: int,
    sec: Section,
    s: SettingsInput,
)
    ensures
        spec_out_lines(lines, k, sec, s).len() == spec_decodable_count(lines, k),
    decreases lines.len() - k,
{
    if 0 <= k < lines.len() {
        if spec_decodable(lines[k]) {
            lemma_one_output_line_per_decodable_line(
                lines,
                k + 1,
                spec_next_section(lines[k], sec),
                s,
            );
        } else {
            lemma_one_output_line_per_decodable_line(lines, k + 1, sec, s);
        }
    }
}

/// Rewrites are idempotent relative to the backup: a first run with no
/// backup snapshots the live document and rewrites it; a second run reads
/// that same backup and produces the same live document, with the backup
/// unchanged.
pub proof fn lemma_rewrite_idempotent(live: Seq<u8>, s: SettingsInput)
    ensures
        ({
            let backup1 = spec_backup_source(live, Option::None);
            let live1 = spec_rewritten(backup1, s);
            let backup2 = spec_backup_source(live1, Option::Some(backup1));
            let live2 = spec_rewritten(backup2, s);
            backup1 == live && backup2 == backup1 && live2 == live1
        }),
{
}

/// A whitespace-only line anywhere in a fully decodable document stays in
/// place and becomes exactly the empty line, so a bare CRLF in the output.
pub proof fn lemma_blank_line_stays_blank(lines: Seq<Seq<u8>>, s: SettingsInput)
    requires
        forall|i: int| 0 <= i < lines.len() ==> spec_decodable(lines[i]),
    ensures
        spec_out_lines(lines, 0, Section::Other, s).len() == lines.len(),
        forall|i: int|
            0 <= i < lines.len() && spec_trim(lines[i]).len() == 0 ==> spec_out_lines(
                lines,
                0,
                Section::Other,
                s,
            )[i] == Seq::<u8>::empty(),
{
    lemma_lines_in_place(lines, 0, Section::Other, s);
}

/// A `ResX` key on a line outside the `[SystemSettings]` section is emitted
/// verbatim, whatever the settings say.
pub proof fn lemma_resx_outside_system_settings(line: Seq<u8>, sec: Section, s: SettingsInput)
    requires
        sec != Section::SystemSettings,
        ({
            let t = spec_trim(line);
            match spec_find(t, 61u8) {
                Option::Some(i) => t.take(i) == ascii("ResX"@),
                Option::None => false,
            }
        }),
    ensures
        spec_out_line(line, sec, s) == line,
{
    let t = spec_trim(line);
    lemma_find(t, 61u8);
    reveal_strlit("ResX");
    reveal_strlit("StartupMovies");
    reveal_strlit(";StartupMovies");
    match spec_find(t, 61u8) {
        Option::Some(i) => {
            assert(t.take(i).len() == ascii("ResX"@).len());
            assert(t[0] == t.take(i)[0]);
            assert(t[0] == 82u8);
            assert(!spec_is_header(t));
            if spec_starts_with(t, ascii("StartupMovies"@)) {
                assert(t.take(ascii("StartupMovies"@).len() as int)[0] == 83u8);
            }
            if spec_starts_with(t, ascii(";StartupMovies"@)) {
                assert(t.take(ascii(";StartupMovies"@).len() as int)[0] == 59u8);
            }
        },
        Option::None => {},
    }
}

/// How many lines of one run failed to decode: the `DecodeError` events
/// among the run's observer events.
pub open spec fn spec_decode_error_count(es: Seq<SpecLogEvent>) -> nat
    decreases es.len(),
{
    if es.len() == 0 {
        0
    } else {
        spec_decode_error_count(es.drop_last()) + (if es.last() is DecodeError {
            1nat
        } else {
            0nat
        })
    }
}

/// Count the lines that a run dropped because they were not text.
pub fn decode_error_count(events: &Vec<LogEvent>) -> (n: usize)
    ensures
        n == spec_decode_error_count(events_view(events@)),
{
    let mut n: usize = 0;
    let mut i: usize = 0;
    proof {
        assert(events_view(events@).take(0) =~= Seq::<SpecLogEvent>::empty());
    }
    while i < events.len()
        invariant
            0 <= i <= events@.len(),
            n <= i,
            n == spec_decode_error_count(events_view(events@).take(i as int)),
        decreases events@.len() - i,
    {
        proof {
            assert(events_view(events@).take(i + 1).drop_last() =~= events_view(events@).take(
                i as int,
            ));
            assert(events_view(events@).take(i + 1).last() == events@[i as int]@);
        }
        if matches!(&events[i], LogEvent::DecodeError { .. }) {
            n = n + 1;
        }
        i = i + 1;
    }
    proof {
        assert(events_view(events@).take(events@.len() as int) =~= events_view(events@));
    }
    n
}

/// The live and backup file names under the engine configuration directory.
pub fn grid_engine_config_paths(config_dir: &Vec<u8>) -> (r: (Vec<u8>, Vec<u8>))
    ensures
        r.0@ == spec_joined(config_dir@, ascii("GridEngine.ini"@)),
        r.1@ == spec_joined(config_dir@, ascii("GridEngine.backup.ini"@)),
{
    proof {
        reveal_strlit("GridEngine.ini");
        reveal_strlit("GridEngine.backup.ini");
    }
    let cfg = lit_bytes("GridEngine.ini");
    let bak = lit_bytes("GridEngine.backup.ini");
    (join_path(config_dir, &cfg), join_path(config_dir, &bak))
}

/// The engine configuration directory for a given user profile directory.
pub fn config_path_for_profile(user_profile: &Vec<u8>) -> (r: Vec<u8>)
    ensures
        r@ == spec_joined(user_profile@, ascii(CONFIG_PATH@)),
{
    proof {
        reveal_strlit(
            "Documents\\Disney Interactive Studios\\Tron Evolution\\UnrealEngine3\\GridGame\\Config",
        );
    }
    let tail = lit_bytes(CONFIG_PATH);
    join_path(user_profile, &tail)
}

} // verus!
