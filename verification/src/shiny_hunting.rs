//! The shiny encounter log: its record shape, the exact pretty-printed
//! JSON array the log file holds, a parser for that format proved to
//! invert the writer, and the append step that rewrites the whole file.
//! Reading and writing the file itself is the surrounding program's job.

use vstd::prelude::*;
use crate::error::Error;
use crate::json::{e_jstr, e_lit, jstr, lemma_p_jstr, lemma_p_lit, p_jstr, p_lit,
    write_json_string};
use crate::strutil::str_eq;

verus! {

/// One shiny encounter, as recorded in the log file.
#[derive(Debug)]
pub struct ShinyLogEntry {
    pub pokemon_name: String,
    pub form: String,
    pub date: String,
    pub details: String,
}

/// The mathematical image of a log entry: its four fields as character
/// sequences.
#[verifier::ext_equal]
pub struct ShinyLogEntryView {
    pub pokemon_name: Seq<char>,
    pub form: Seq<char>,
    pub date: Seq<char>,
    pub details: Seq<char>,
}

impl View for ShinyLogEntry {
    type V = ShinyLogEntryView;

    open spec fn view(&self) -> ShinyLogEntryView {
        ShinyLogEntryView {
            pokemon_name: self.pokemon_name@,
            form: self.form@,
            date: self.date@,
            details: self.details@,
        }
    }
}

impl Clone for ShinyLogEntry {
    fn clone(&self) -> (r: Self)
        ensures
            r@ == self@,
    {
        ShinyLogEntry {
            pokemon_name: self.pokemon_name.clone(),
            form: self.form.clone(),
            date: self.date.clone(),
            details: self.details.clone(),
        }
    }
}

/// The image of each entry in a sequence of entries.
pub open spec fn entry_views(s: Seq<ShinyLogEntry>) -> Seq<ShinyLogEntryView> {
    s.map_values(|e: ShinyLogEntry| e@)
}

/// One entry as the pretty-printed log file holds it, at one level of
/// indentation inside the array.
pub open spec fn ser_entry(e: ShinyLogEntryView) -> Seq<char> {
    "  {\n    \"pokemon_name\": "@ + jstr(e.pokemon_name) + ",\n    \"form\": "@ + jstr(e.form)
        + ",\n    \"date\": "@ + jstr(e.date) + ",\n    \"details\": "@ + jstr(e.details)
        + "\n  }"@
}

/// The entries joined with a comma and a line break.
pub open spec fn ser_entries(es: Seq<ShinyLogEntryView>) -> Seq<char>
    decreases es.len(),
{
    if es.len() == 0 {
        Seq::empty()
    } else if es.len() == 1 {
        ser_entry(es[0])
    } else {
        ser_entry(es[0]) + ",\n"@ + ser_entries(es.drop_first())
    }
}

/// The whole log file: a pretty-printed JSON array, `[]` when empty.
pub open spec fn ser_log(es: Seq<ShinyLogEntryView>) -> Seq<char> {
    if es.len() == 0 {
        "[]"@
    } else {
        "[\n"@ + ser_entries(es) + "\n]"@
    }
}

/// Reads one entry: the literal frame around the four string fields.
pub open spec fn p_entry(s: Seq<char>) -> Option<(ShinyLogEntryView, Seq<char>)> {
    match p_lit(s, "  {\n    \"pokemon_name\": "@) {
        None => None,
        Some(r1) => match p_jstr(r1) {
            None => None,
            Some((pokemon_name, r2)) => match p_lit(r2, ",\n    \"form\": "@) {
                None => None,
                Some(r3) => match p_jstr(r3) {
                    None => None,
                    Some((form, r4)) => match p_lit(r4, ",\n    \"date\": "@) {
                        None => None,
                        Some(r5) => match p_jstr(r5) {
                            None => None,
                            Some((date, r6)) => match p_lit(r6, ",\n    \"details\": "@) {
                                None => None,
                                Some(r7) => match p_jstr(r7) {
                                    None => None,
                                    Some((details, r8)) => match p_lit(r8, "\n  }"@) {
                                        None => None,
                                        Some(r9) => Some(
                                            (
                                                ShinyLogEntryView {
                                                    pokemon_name,
                                                    form,
                                                    date,
                                                    details,
                                                },
                                                r9,
                                            ),
                                        ),
                                    },
                                },
                            },
                        },
                    },
                },
            },
        },
    }
}

/// Reads the entries of a non-empty array up to its closing bracket.
pub open spec fn p_entries(s: Seq<char>) -> Option<Seq<ShinyLogEntryView>>
    decreases s.len(),
{
    match p_entry(s) {
        None => None,
        Some((e, rest)) => if rest == "\n]"@ {
            Some(seq![e])
        } else {
            match p_lit(rest, ",\n"@) {
                None => None,
                Some(rest2) => if rest2.len() < s.len() {
                    match p_entries(rest2) {
                        Some(es) => Some(seq![e] + es),
                        None => None,
                    }
                } else {
                    None
                },
            }
        },
    }
}

/// Reads a whole log file in the exact shape the writer emits.
pub open spec fn p_log(s: Seq<char>) -> Option<Seq<ShinyLogEntryView>> {
    if s == "[]"@ {
        Some(Seq::empty())
    } else {
        match p_lit(s, "[\n"@) {
            None => None,
            Some(r) => p_entries(r),
        }
    }
}

/// The entry parser inverts the entry writer.
pub proof fn lemma_p_entry(e: ShinyLogEntryView, rest: Seq<char>)
    ensures
        p_entry(ser_entry(e) + rest) == Some((e, rest)),
{
    let l1 = "  {\n    \"pokemon_name\": "@;
    let l2 = ",\n    \"form\": "@;
    let l3 = ",\n    \"date\": "@;
    let l4 = ",\n    \"details\": "@;
    let l5 = "\n  }"@;
    let t5 = l5 + rest;
    let t4d = jstr(e.details) + t5;
    let t4 = l4 + t4d;
    let t3d = jstr(e.date) + t4;
    let t3 = l3 + t3d;
    let t2d = jstr(e.form) + t3;
    let t2 = l2 + t2d;
    let t1d = jstr(e.pokemon_name) + t2;
    assert(ser_entry(e) + rest =~= l1 + t1d);
    lemma_p_lit(l1, t1d);
    lemma_p_jstr(e.pokemon_name, t2);
    lemma_p_lit(l2, t2d);
    lemma_p_jstr(e.form, t3);
    lemma_p_lit(l3, t3d);
    lemma_p_jstr(e.date, t4);
    lemma_p_lit(l4, t4d);
    lemma_p_jstr(e.details, t5);
    lemma_p_lit(l5, rest);
    let parsed = p_entry(ser_entry(e) + rest)->Some_0.0;
    assert(parsed =~= e);
}

/// The entry list parser inverts the joined writer, for at least one
/// entry followed by the closing bracket.
pub proof fn lemma_p_entries(es: Seq<ShinyLogEntryView>)
    requires
        es.len() >= 1,
    ensures
        p_entries(ser_entries(es) + "\n]"@) == Some(es),
    decreases es.len(),
{
    reveal_strlit("  {\n    \"pokemon_name\": ");
    reveal_strlit(",\n");
    reveal_strlit("\n]");
    let s = ser_entries(es) + "\n]"@;
    if es.len() == 1 {
        assert(s =~= ser_entry(es[0]) + "\n]"@);
        lemma_p_entry(es[0], "\n]"@);
        assert(seq![es[0]] =~= es);
    } else {
        let es2 = es.drop_first();
        let rest = ",\n"@ + (ser_entries(es2) + "\n]"@);
        assert(s =~= ser_entry(es[0]) + rest);
        lemma_p_entry(es[0], rest);
        assert(rest[0] == ',');
        assert(rest != "\n]"@);
        lemma_p_lit(",\n"@, ser_entries(es2) + "\n]"@);
        assert(ser_entry(es[0]).len() > 0);
        lemma_p_entries(es2);
        assert(seq![es[0]] + es2 =~= es);
    }
}

/// One more entry extends the joined text with a separator and the entry.
proof fn lemma_ser_entries_push(es: Seq<ShinyLogEntryView>, e: ShinyLogEntryView)
    ensures
        ser_entries(es.push(e)) == if es.len() == 0 {
            ser_entry(e)
        } else {
            ser_entries(es) + ",\n"@ + ser_entry(e)
        },
    decreases es.len(),
{
    let esp = es.push(e);
    if es.len() == 0 {
        assert(esp.len() == 1);
        assert(esp[0] == e);
    } else {
        assert(esp.drop_first() =~= es.drop_first().push(e));
        lemma_ser_entries_push(es.drop_first(), e);
        if es.len() == 1 {
            assert(ser_entries(esp) == ser_entry(es[0]) + ",\n"@ + ser_entry(e));
        } else {
            assert(ser_entry(esp[0]) + ",\n"@ + (ser_entries(es.drop_first()) + ",\n"@
                + ser_entry(e)) =~= (ser_entry(es[0]) + ",\n"@ + ser_entries(es.drop_first()))
                + ",\n"@ + ser_entry(e));
        }
    }
}

/// Appends one entry's pretty-printed block.
fn write_entry(out: &mut String, e: &ShinyLogEntry)
    ensures
        final(out)@ == old(out)@ + ser_entry(e@),
{
    out.append("  {\n    \"pokemon_name\": ");
    write_json_string(out, e.pokemon_name.as_str());
    out.append(",\n    \"form\": ");
    write_json_string(out, e.form.as_str());
    out.append(",\n    \"date\": ");
    write_json_string(out, e.date.as_str());
    out.append(",\n    \"details\": ");
    write_json_string(out, e.details.as_str());
    out.append("\n  }");
    proof {
        assert(out@ =~= old(out)@ + ser_entry(e@));
    }
}

/// The whole log file for the given entries, as `ser_log` lays it out.
pub fn serialize_shiny_log(entries: &Vec<ShinyLogEntry>) -> (r: String)
    ensures
        r@ == ser_log(entry_views(entries@)),
{
    let n = entries.len();
    if n == 0 {
        proof {
            assert(entry_views(entries@).len() == 0);
        }
        return "[]".to_owned();
    }
    let mut out = "[\n".to_owned();
    let mut i: usize = 0;
    proof {
        assert(entry_views(entries@.take(0)).len() == 0);
    }
    while i < n
        invariant
            0 <= i <= n,
            n == entries@.len(),
            n > 0,
            i == 0 ==> out@ == "[\n"@,
            i > 0 ==> out@ == "[\n"@ + ser_entries(entry_views(entries@.take(i as int))),
        decreases n - i,
    {
        if i > 0 {
            out.append(",\n");
        }
        write_entry(&mut out, &entries[i]);
        proof {
            assert(entry_views(entries@.take(i + 1)) =~= entry_views(
                entries@.take(i as int),
            ).push(entries@[i as int]@));
            lemma_ser_entries_push(entry_views(entries@.take(i as int)), entries@[i as int]@);
            if i == 0 {
                assert(out@ =~= "[\n"@ + ser_entries(entry_views(entries@.take(1))));
            } else {
                assert(out@ =~= "[\n"@ + ser_entries(entry_views(entries@.take(i + 1))));
            }
        }
        i = i + 1;
    }
    out.append("\n]");
    proof {
        assert(entries@.take(n as int) =~= entries@);
        assert(out@ =~= ser_log(entry_views(entries@)));
    }
    out
}

/// Reads one entry at position `pos`; the entry and the position after it.
fn e_entry(s: &str, pos: usize) -> (r: Option<(ShinyLogEntry, usize)>)
    requires
        pos <= s@.len(),
    ensures
        match r {
            Some(p) => pos < p.1 <= s@.len() && p_entry(s@.skip(pos as int)) == Some(
                (p.0@, s@.skip(p.1 as int)),
            ),
            None => p_entry(s@.skip(pos as int)) is None,
        },
{
    let j1 = match e_lit(s, pos, "  {\n    \"pokemon_name\": ") {
        Some(j) => j,
        None => {
            return None;
        },
    };
    let (pokemon_name, j2) = match e_jstr(s, j1) {
        Some(p) => p,
        None => {
            return None;
        },
    };
    let j3 = match e_lit(s, j2, ",\n    \"form\": ") {
        Some(j) => j,
        None => {
            return None;
        },
    };
    let (form, j4) = match e_jstr(s, j3) {
        Some(p) => p,
        None => {
            return None;
        },
    };
    let j5 = match e_lit(s, j4, ",\n    \"date\": ") {
        Some(j) => j,
        None => {
            return None;
        },
    };
    let (date, j6) = match e_jstr(s, j5) {
        Some(p) => p,
        None => {
            return None;
        },
    };
    let j7 = match e_lit(s, j6, ",\n    \"details\": ") {
        Some(j) => j,
        None => {
            return None;
        },
    };
    let (details, j8) = match e_jstr(s, j7) {
        Some(p) => p,
        None => {
            return None;
        },
    };
    let j9 = match e_lit(s, j8, "\n  }") {
        Some(j) => j,
        None => {
            return None;
        },
    };
    let entry = ShinyLogEntry { pokemon_name, form, date, details };
    proof {
        let parsed = p_entry(s@.skip(pos as int))->Some_0.0;
        assert(parsed =~= entry@);
    }
    Some((entry, j9))
}

/// Reads a whole log file back into its entries; fails exactly when the
/// text is not in the shape the writer emits.
pub fn load_shiny_log(content: &str) -> (r: Result<Vec<ShinyLogEntry>, Error>)
    ensures
        match r {
            Ok(es) => p_log(content@) == Some(entry_views(es@)),
            Err(e) => p_log(content@) is None && e matches Error::IoError(_),
        },
{
    if str_eq(content, "[]") {
        let empty: Vec<ShinyLogEntry> = Vec::new();
        proof {
            assert(entry_views(empty@) =~= Seq::<ShinyLogEntryView>::empty());
        }
        return Ok(empty);
    }
    let n = content.unicode_len();
    proof {
        assert(content@.skip(0) =~= content@);
    }
    let head = match e_lit(content, 0, "[\n") {
        Some(j) => j,
        None => {
            return Err(Error::IoError("malformed shiny log".to_owned()));
        },
    };
    let mut out: Vec<ShinyLogEntry> = Vec::new();
    let mut pos: usize = head;
    proof {
        assert(entry_views(out@) =~= Seq::<ShinyLogEntryView>::empty());
        if p_entries(content@.skip(pos as int)) is Some {
            let es = p_entries(content@.skip(pos as int))->Some_0;
            assert(entry_views(out@) + es =~= es);
        }
    }
    loop
        invariant
            head <= pos <= n,
            n == content@.len(),
            (match p_entries(content@.skip(pos as int)) {
                Some(es) => p_log(content@) == Some(entry_views(out@) + es),
                None => p_log(content@) is None,
            }),
        decreases n - pos,
    {
        match e_entry(content, pos) {
            None => {
                return Err(Error::IoError("malformed shiny log".to_owned()));
            },
            Some((e, j)) => {
                let ghost out0 = entry_views(out@);
                let ghost ev = e@;
                out.push(e);
                proof {
                    assert(entry_views(out@) =~= out0.push(ev));
                }
                if n - j == 2 {
                    match e_lit(content, j, "\n]") {
                        Some(_) => {
                            proof {
                                reveal_strlit("\n]");
                                assert(content@.skip(j as int) =~= "\n]"@);
                                assert(p_entries(content@.skip(pos as int)) == Some(seq![ev]));
                                assert(out0 + seq![ev] =~= entry_views(out@));
                            }
                            return Ok(out);
                        },
                        None => {
                            proof {
                                reveal_strlit("\n]");
                                reveal_strlit(",\n");
                                reveal_strlit("  {\n    \"pokemon_name\": ");
                                let rest = content@.skip(j as int);
                                assert(rest.len() == 2);
                                assert(rest.take(2) =~= rest);
                                assert(rest != "\n]"@);
                                assert(p_entry(content@.skip(pos as int)) == Some(
                                    (ev, rest),
                                ));
                                assert(content@.skip(pos as int).len() > 0);
                                match p_lit(rest, ",\n"@) {
                                    None => {},
                                    Some(rest2) => {
                                        assert(rest2.len() == 0);
                                        assert(p_lit(
                                            rest2,
                                            "  {\n    \"pokemon_name\": "@,
                                        ) is None);
                                        assert(p_entry(rest2) is None);
                                        assert(p_entries(rest2) is None);
                                    },
                                }
                                assert(p_entries(content@.skip(pos as int)) is None);
                            }
                            return Err(Error::IoError("malformed shiny log".to_owned()));
                        },
                    }
                } else {
                    proof {
                        reveal_strlit("\n]");
                        assert(content@.skip(j as int).len() != 2);
                        assert(content@.skip(j as int) != "\n]"@);
                    }
                    match e_lit(content, j, ",\n") {
                        None => {
                            return Err(Error::IoError("malformed shiny log".to_owned()));
                        },
                        Some(j2) => {
                            proof {
                                reveal_strlit(",\n");
                                assert(content@.skip(j2 as int).len() < content@.skip(
                                    pos as int,
                                ).len());
                                if p_entries(content@.skip(j2 as int)) is Some {
                                    let es2 = p_entries(content@.skip(j2 as int))->Some_0;
                                    assert(p_entries(content@.skip(pos as int)) == Some(
                                        seq![ev] + es2,
                                    ));
                                    assert(out0 + (seq![ev] + es2) =~= entry_views(out@) + es2);
                                } else {
                                    assert(p_entries(content@.skip(pos as int)) is None);
                                }
                            }
                            pos = j2;
                        },
                    }
                }
            },
        }
    }
}

/// The new log file after one more entry: the prior entries are read
/// back, the entry is appended, and the whole array is written anew.
/// Empty prior content stands for a log not yet begun.
pub fn log_shiny_capture(content: &str, entry: &ShinyLogEntry) -> (r: Result<String, Error>)
    ensures
        content@.len() == 0 ==> (r matches Ok(out) && out@ == ser_log(seq![entry@])),
        content@.len() > 0 ==> match p_log(content@) {
            Some(es) => r matches Ok(out) && out@ == ser_log(es.push(entry@)),
            None => r is Err,
        },
{
    let mut entries: Vec<ShinyLogEntry> = if content.is_empty() {
        Vec::new()
    } else {
        match load_shiny_log(content) {
            Ok(es) => es,
            Err(e) => {
                return Err(e);
            },
        }
    };
    let ghost prior = entry_views(entries@);
    entries.push(entry.clone());
    proof {
        assert(entry_views(entries@) =~= prior.push(entry@));
        if content@.len() == 0 {
            assert(prior.push(entry@) =~= seq![entry@]);
        }
    }
    Ok(serialize_shiny_log(&entries))
}

/// The line printed for one log entry.
pub open spec fn spec_entry_line(e: ShinyLogEntryView) -> Seq<char> {
    e.date + ": "@ + e.pokemon_name + " "@ + e.form + " - "@ + e.details
}

/// One line per log entry, in order; the surrounding program prints them.
pub fn display_shiny_log(log_entries: &Vec<ShinyLogEntry>) -> (r: Vec<String>)
    ensures
        r@.len() == log_entries@.len(),
        forall|i: int| 0 <= i < r@.len() ==> r@[i]@ == spec_entry_line((#[trigger] log_entries@[i])@),
{
    let n = log_entries.len();
    let mut r: Vec<String> = Vec::new();
    let mut i: usize = 0;
    while i < n
        invariant
            i <= n,
            n == log_entries@.len(),
            r@.len() == i,
            forall|j: int|
                0 <= j < i ==> r@[j]@ == spec_entry_line((#[trigger] log_entries@[j])@),
        decreases n - i,
    {
        let e = &log_entries[i];
        let mut line = e.date.clone();
        line.append(": ");
        line.append(e.pokemon_name.as_str());
        line.append(" ");
        line.append(e.form.as_str());
        line.append(" - ");
        line.append(e.details.as_str());
        proof {
            assert(line@ =~= spec_entry_line(log_entries@[i as int]@));
        }
        r.push(line);
        i = i + 1;
    }
    r
}

/// Reading the log back yields exactly the entries that were written:
/// the parser inverts the writer on every entry sequence, so appending
/// entries one at a time, in one run or across runs, loses none and
/// duplicates none.
pub proof fn lemma_log_round_trip(es: Seq<ShinyLogEntryView>)
    ensures
        p_log(ser_log(es)) == Some(es),
{
    reveal_strlit("[]");
    reveal_strlit("[\n");
    if es.len() == 0 {
        assert(ser_log(es) == "[]"@);
        assert(Seq::<ShinyLogEntryView>::empty() =~= es);
    } else {
        let s = ser_log(es);
        let body = ser_entries(es) + "\n]"@;
        assert(s =~= "[\n"@ + body);
        assert(s[1] == '\n');
        assert(s != "[]"@) by {
            if s == "[]"@ {
                assert(s[1] == ']');
            }
        }
        lemma_p_lit("[\n"@, body);
        lemma_p_entries(es);
    }
}

} // verus!
