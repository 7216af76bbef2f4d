//! Locating the job files that mention an id: every line of every file is
//! matched against the id read as a regular expression.
use vstd::prelude::*;

verus! {

#[verifier::external_type_specification]
#[verifier::external_body]
pub struct ExRegex(regex::Regex);

#[verifier::external_type_specification]
#[verifier::external_body]
pub struct ExRegexError(regex::Error);

/// Whether `regex::Regex::new` accepts `pattern` (with its default limits).
pub uninterp spec fn pattern_compiles(pattern: Seq<char>) -> bool;

/// Whether the regular expression `pattern` matches somewhere in `text`.
pub uninterp spec fn pattern_matches(pattern: Seq<char>, text: Seq<char>) -> bool;

/// A regular expression together with the text it was compiled from. Only
/// `compile_pattern` builds one, so `regex` is always `pattern` compiled.
pub struct CompiledPattern {
    pattern: String,
    regex: regex::Regex,
}

impl CompiledPattern {
    pub closed spec fn source(&self) -> Seq<char> {
        self.pattern@
    }
}

/// Calls `regex::Regex::new`. Trusted: it succeeds exactly when the pattern
/// compiles, a fact of the pattern alone, and the value it gives is that
/// pattern compiled. What the error holds is not stated.
#[verifier::external_body]
fn compile_pattern(pattern: &str) -> (r: Result<CompiledPattern, regex::Error>)
    ensures
        r is Ok <==> pattern_compiles(pattern@),
        r matches Ok(c) ==> c.source() == pattern@,
{
    match regex::Regex::new(pattern) {
        Ok(regex) => Ok(CompiledPattern { pattern: pattern.to_string(), regex }),
        Err(e) => Err(e),
    }
}

/// Calls `regex::Regex::is_match`. Trusted: whether the compiled pattern
/// matches anywhere in `line` is a fact of the pattern's text and the line.
#[verifier::external_body]
fn pattern_is_match(p: &CompiledPattern, line: &str) -> (r: bool)
    ensures
        r == pattern_matches(p.source(), line@),
{
    p.regex.is_match(line)
}

/// Why a search could not run.
#[derive(Debug)]
pub enum SearchError {
    /// the id is not a valid regular expression
    InvalidPattern(regex::Error),
}

/// A file and its lines.
pub struct FileLines {
    pub path: String,
    pub lines: Vec<String>,
}

/// The lines of a file, as character sequences.
pub open spec fn lines_view(lines: Seq<String>) -> Seq<Seq<char>> {
    lines.map_values(|l: String| l@)
}

/// The files, as their paths and lines.
pub open spec fn files_view(files: Seq<FileLines>) -> Seq<(Seq<char>, Seq<Seq<char>>)> {
    files.map_values(|f: FileLines| (f.path@, lines_view(f.lines@)))
}

/// The report for one matching line.
pub open spec fn found_message(pattern: Seq<char>, path: Seq<char>) -> Seq<char> {
    "This job file has this id '"@ + pattern + "' : "@ + path
}

/// One report per line of the file that the pattern matches.
pub open spec fn file_messages(pattern: Seq<char>, path: Seq<char>, lines: Seq<Seq<char>>) -> Seq<
    Seq<char>,
>
    decreases lines.len(),
{
    if lines.len() == 0 {
        Seq::empty()
    } else if pattern_matches(pattern, lines.last()) {
        file_messages(pattern, path, lines.drop_last()).push(found_message(pattern, path))
    } else {
        file_messages(pattern, path, lines.drop_last())
    }
}

/// The reports for every file, in order.
pub open spec fn search_messages(pattern: Seq<char>, files: Seq<(Seq<char>, Seq<Seq<char>>)>) -> Seq<
    Seq<char>,
>
    decreases files.len(),
{
    if files.len() == 0 {
        Seq::empty()
    } else {
        search_messages(pattern, files.drop_last()) + file_messages(
            pattern,
            files.last().0,
            files.last().1,
        )
    }
}

/// The reports, as character sequences.
pub open spec fn messages_view(v: Seq<String>) -> Seq<Seq<char>> {
    v.map_values(|s: String| s@)
}

fn message(pattern: &str, path: &String) -> (r: String)
    ensures
        r@ == found_message(pattern@, path@),
{
    let mut r = String::from_str("This job file has this id '");
    r.append(pattern);
    r.append("' : ");
    r.append(path.as_str());
    r
}

/// One report for each line of a file whose match flag is set.
pub open spec fn flagged_reports(pattern: Seq<char>, path: Seq<char>, flags: Seq<bool>) -> Seq<
    Seq<char>,
>
    decreases flags.len(),
{
    if flags.len() == 0 {
        Seq::empty()
    } else if flags.last() {
        flagged_reports(pattern, path, flags.drop_last()).push(found_message(pattern, path))
    } else {
        flagged_reports(pattern, path, flags.drop_last())
    }
}

/// The reports of every file, in order, from each file's path and the match
/// flags of its lines.
pub open spec fn reports_for(pattern: Seq<char>, files: Seq<(Seq<char>, Seq<bool>)>) -> Seq<
    Seq<char>,
>
    decreases files.len(),
{
    if files.len() == 0 {
        Seq::empty()
    } else {
        reports_for(pattern, files.drop_last()) + flagged_reports(
            pattern,
            files.last().0,
            files.last().1,
        )
    }
}

/// A file's path and its lines' match flags.
pub struct FileMatches {
    pub path: String,
    pub matched: Vec<bool>,
}

/// The files' paths and match flags, as abstract values.
pub open spec fn matches_view(files: Seq<FileMatches>) -> Seq<(Seq<char>, Seq<bool>)> {
    files.map_values(|f: FileMatches| (f.path@, f.matched@))
}

/// Builds the reports from the match results: one report, naming `pattern`
/// and the file's path, for every line flagged as matching, in order.
pub fn reports_from_matches(pattern: &str, files: &Vec<FileMatches>) -> (r: Vec<String>)
    ensures
        messages_view(r@) == reports_for(pattern@, matches_view(files@)),
{
    let ghost fv = matches_view(files@);
    let mut out: Vec<String> = Vec::new();
    let nf = files.len();
    for f in 0..nf
        invariant
            nf == files@.len(),
            fv == matches_view(files@),
            messages_view(out@) == reports_for(pattern@, fv.take(f as int)),
    {
        let file = &files[f];
        let ghost flags = file.matched@;
        let ghost base = messages_view(out@);
        assert(fv[f as int] == (file.path@, flags));
        let nl = file.matched.len();
        for l in 0..nl
            invariant
                nl == file.matched@.len(),
                flags == file.matched@,
                messages_view(out@) == base + flagged_reports(pattern@, file.path@, flags.take(l as int)),
        {
            assert(flags.take(l + 1).drop_last() =~= flags.take(l as int));
            assert(flags.take(l + 1).last() == flags[l as int]);
            if file.matched[l] {
                let ghost before = messages_view(out@);
                out.push(message(pattern, &file.path));
                assert(messages_view(out@) =~= before.push(found_message(pattern@, file.path@)));
            }
        }
        assert(flags.take(nl as int) =~= flags);
        assert(fv.take(f + 1).drop_last() =~= fv.take(f as int));
    }
    assert(fv.take(nf as int) =~= fv);
    out
}

/// Flags that record, line by line, whether the pattern matches.
pub open spec fn flags_agree(pattern: Seq<char>, lines: Seq<Seq<char>>, flags: Seq<bool>) -> bool {
    &&& flags.len() == lines.len()
    &&& forall|l: int| 0 <= l < lines.len() ==> flags[l] == pattern_matches(pattern, #[trigger] lines[l])
}

proof fn lemma_flagged_is_file_messages(
    pattern: Seq<char>,
    path: Seq<char>,
    lines: Seq<Seq<char>>,
    flags: Seq<bool>,
)
    requires
        flags_agree(pattern, lines, flags),
    ensures
        flagged_reports(pattern, path, flags) == file_messages(pattern, path, lines),
    decreases lines.len(),
{
    if lines.len() > 0 {
        assert(flags_agree(pattern, lines.drop_last(), flags.drop_last())) by {
            assert forall|l: int| 0 <= l < lines.len() - 1 implies flags.drop_last()[l]
                == pattern_matches(pattern, #[trigger] lines.drop_last()[l]) by {
                assert(lines.drop_last()[l] == lines[l]);
            }
        }
        lemma_flagged_is_file_messages(pattern, path, lines.drop_last(), flags.drop_last());
        assert(flags.last() == pattern_matches(pattern, lines[lines.len() - 1]));
    }
}

proof fn lemma_reports_are_search_messages(
    pattern: Seq<char>,
    files: Seq<(Seq<char>, Seq<Seq<char>>)>,
    found: Seq<(Seq<char>, Seq<bool>)>,
)
    requires
        found.len() == files.len(),
        forall|f: int|
            0 <= f < files.len() ==> #[trigger] found[f].0 == files[f].0 && flags_agree(
                pattern,
                files[f].1,
                found[f].1,
            ),
    ensures
        reports_for(pattern, found) == search_messages(pattern, files),
    decreases files.len(),
{
    if files.len() > 0 {
        let n = files.len() - 1;
        assert forall|f: int| 0 <= f < n implies #[trigger] found.drop_last()[f].0
            == files.drop_last()[f].0 && flags_agree(
            pattern,
            files.drop_last()[f].1,
            found.drop_last()[f].1,
        ) by {
            assert(found[f].0 == files[f].0);
        }
        lemma_reports_are_search_messages(pattern, files.drop_last(), found.drop_last());
        assert(found[n].0 == files[n].0);
        lemma_flagged_is_file_messages(pattern, files[n].0, files[n].1, found[n].1);
    }
}

/// Matches each line of a file against the compiled pattern.
fn match_lines(compiled: &CompiledPattern, lines: &Vec<String>) -> (r: Vec<bool>)
    ensures
        flags_agree(compiled.source(), lines_view(lines@), r@),
{
    let mut r: Vec<bool> = Vec::new();
    let n = lines.len();
    for l in 0..n
        invariant
            n == lines@.len(),
            r@.len() == l,
            forall|k: int|
                0 <= k < l ==> r@[k] == pattern_matches(compiled.source(), #[trigger] lines@[k]@),
    {
        let m = pattern_is_match(compiled, lines[l].as_str());
        r.push(m);
    }
    assert forall|k: int| 0 <= k < n implies r@[k] == pattern_matches(
        compiled.source(),
        #[trigger] lines_view(lines@)[k],
    ) by {
        assert(lines_view(lines@)[k] == lines@[k]@);
    }
    r
}

/// Reports every line of every file that `pattern`, read as a regular
/// expression, matches; refuses a pattern that does not compile.
pub fn search_files(pattern: &str, files: &Vec<FileLines>) -> (r: Result<Vec<String>, SearchError>)
    ensures
        r is Err <==> !pattern_compiles(pattern@),
        r matches Ok(v) ==> messages_view(v@) == search_messages(pattern@, files_view(files@)),
{
    let compiled = match compile_pattern(pattern) {
        Ok(c) => c,
        Err(e) => return Err(SearchError::InvalidPattern(e)),
    };
    let ghost fv = files_view(files@);
    let mut found: Vec<FileMatches> = Vec::new();
    let nf = files.len();
    let mut f: usize = 0;
    while f < nf
        invariant
            nf == files@.len(),
            fv == files_view(files@),
            compiled.source() == pattern@,
            f <= nf,
            found@.len() == f,
            forall|k: int|
                0 <= k < f ==> #[trigger] found@[k].path@ == files@[k].path@ && flags_agree(
                    pattern@,
                    lines_view(files@[k].lines@),
                    found@[k].matched@,
                ),
        decreases nf - f,
    {
        let file = &files[f];
        let matched = match_lines(&compiled, &file.lines);
        let ghost before = found@;
        found.push(FileMatches { path: file.path.clone(), matched });
        assert forall|k: int| 0 <= k < f + 1 implies #[trigger] found@[k].path@ == files@[k].path@
            && flags_agree(pattern@, lines_view(files@[k].lines@), found@[k].matched@) by {
            if k < f {
                assert(found@[k] == before[k]);
            }
        }
        f = f + 1;
    }
    proof {
        assert forall|k: int| 0 <= k < fv.len() implies #[trigger] matches_view(found@)[k].0
            == fv[k].0 && flags_agree(pattern@, fv[k].1, matches_view(found@)[k].1) by {
            assert(found@[k].path@ == files@[k].path@);
        }
    }
    let out = reports_from_matches(pattern, &found);
    proof {
        lemma_reports_are_search_messages(pattern@, fv, matches_view(found@));
    }
    Ok(out)
}

/// Searching two batches of files and joining the reports is searching
/// them all at once.
pub proof fn law_search_splits(
    pattern: Seq<char>,
    a: Seq<(Seq<char>, Seq<Seq<char>>)>,
    b: Seq<(Seq<char>, Seq<Seq<char>>)>,
)
    ensures
        search_messages(pattern, a + b) == search_messages(pattern, a) + search_messages(
            pattern,
            b,
        ),
    decreases b.len(),
{
    if b.len() == 0 {
        assert(a + b =~= a);
    } else {
        law_search_splits(pattern, a, b.drop_last());
        assert((a + b).drop_last() =~= a + b.drop_last());
        assert((a + b).last() == b.last());
    }
}

proof fn lemma_file_messages_name_path(pattern: Seq<char>, path: Seq<char>, lines: Seq<Seq<char>>)
    ensures
        forall|k: int|
            0 <= k < file_messages(pattern, path, lines).len() ==> #[trigger] file_messages(
                pattern,
                path,
                lines,
            )[k] == found_message(pattern, path),
        file_messages(pattern, path, lines).len() <= lines.len(),
    decreases lines.len(),
{
    if lines.len() > 0 {
        lemma_file_messages_name_path(pattern, path, lines.drop_last());
    }
}

/// Every report names the pattern and the path of one of the searched
/// files, and no file yields more reports than it has lines.
pub proof fn law_reports_name_searched_files(
    pattern: Seq<char>,
    files: Seq<(Seq<char>, Seq<Seq<char>>)>,
    k: int,
)
    requires
        0 <= k < search_messages(pattern, files).len(),
    ensures
        exists|f: int|
            0 <= f < files.len() && search_messages(pattern, files)[k] == found_message(
                pattern,
                #[trigger] files[f].0,
            ),
    decreases files.len(),
{
    let p = files.drop_last();
    let last = files.last();
    lemma_file_messages_name_path(pattern, last.0, last.1);
    if k < search_messages(pattern, p).len() {
        law_reports_name_searched_files(pattern, p, k);
        let f = choose|f: int|
            0 <= f < p.len() && search_messages(pattern, p)[k] == found_message(
                pattern,
                #[trigger] p[f].0,
            );
        assert(files[f] == p[f]);
    } else {
        let j = k - search_messages(pattern, p).len();
        assert(file_messages(pattern, last.0, last.1)[j] == found_message(pattern, last.0));
        assert(files[files.len() - 1] == last);
    }
}

/// A file none of whose lines the pattern matches yields no report; one all
/// of whose lines it matches yields one report per line.
pub proof fn law_reports_follow_matches(pattern: Seq<char>, path: Seq<char>, lines: Seq<Seq<char>>)
    ensures
        (forall|l: int| 0 <= l < lines.len() ==> !pattern_matches(pattern, #[trigger] lines[l]))
            ==> file_messages(pattern, path, lines).len() == 0,
        (forall|l: int| 0 <= l < lines.len() ==> pattern_matches(pattern, #[trigger] lines[l]))
            ==> file_messages(pattern, path, lines).len() == lines.len(),
    decreases lines.len(),
{
    if lines.len() > 0 {
        let p = lines.drop_last();
        law_reports_follow_matches(pattern, path, p);
        if forall|l: int| 0 <= l < lines.len() ==> !pattern_matches(pattern, #[trigger] lines[l]) {
            assert forall|l: int| 0 <= l < p.len() implies !pattern_matches(pattern, #[trigger] p[l]) by {
                assert(p[l] == lines[l]);
            }
            assert(!pattern_matches(pattern, lines[lines.len() - 1]));
        }
        if forall|l: int| 0 <= l < lines.len() ==> pattern_matches(pattern, #[trigger] lines[l]) {
            assert forall|l: int| 0 <= l < p.len() implies pattern_matches(pattern, #[trigger] p[l]) by {
                assert(p[l] == lines[l]);
            }
            assert(pattern_matches(pattern, lines[lines.len() - 1]));
        }
    }
}

} // verus!
