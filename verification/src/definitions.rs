//! Parsing and validation of tag definitions from markdown with optional
//! simple YAML-like frontmatter. Reading the files from disk is a
//! collaborator's job; everything from raw file text to validated
//! definitions is decided here.

use vstd::prelude::*;

use crate::model::{DefView, TagDefinition};
use crate::ports::DefinitionsError;
use crate::strutil::{find_char, find_char_spec, find_first, find_sub_spec, lines_of, replace_spec,
    replace_str, split_lines, split_on, split_on_char, starts_with_str, str_eq, trim_char,
    trim_char_spec, trim_spec, trim_str};
use vstd::string::StringExecFns;

verus! {

/// Frontmatter fields of a definition file.
pub struct Frontmatter {
    /// Explicit id, overriding the file stem.
    pub id: Option<String>,
    /// Human-readable title.
    pub title: Option<String>,
    /// Short description.
    pub short: Option<String>,
    /// Alias list.
    pub aliases: Vec<String>,
}

/// The mathematical content of a `Frontmatter`.
pub ghost struct FmView {
    pub id: Option<Seq<char>>,
    pub title: Option<Seq<char>>,
    pub short: Option<Seq<char>>,
    pub aliases: Seq<Seq<char>>,
}

impl View for Frontmatter {
    type V = FmView;

    open spec fn view(&self) -> FmView {
        FmView {
            id: self.id.deep_view(),
            title: self.title.deep_view(),
            short: self.short.deep_view(),
            aliases: self.aliases.deep_view(),
        }
    }
}

/// An empty frontmatter.
pub open spec fn fm_empty() -> FmView {
    FmView { id: None, title: None, short: None, aliases: Seq::empty() }
}

/// A value with surrounding double then single quotes removed.
pub open spec fn unquote(v: Seq<char>) -> Seq<char> {
    trim_char_spec(trim_char_spec(v, '"'), '\'')
}

/// Alias pieces cleaned one by one: trimmed, unquoted, empties dropped.
pub open spec fn clean_pieces(ps: Seq<Seq<char>>) -> Seq<Seq<char>>
    decreases ps.len(),
{
    if ps.len() == 0 {
        Seq::empty()
    } else {
        let rest = clean_pieces(ps.drop_last());
        let cleaned = unquote(trim_spec(ps.last()));
        if cleaned.len() > 0 {
            rest.push(cleaned)
        } else {
            rest
        }
    }
}

/// One frontmatter line folded into the fields: blank lines and comments
/// are skipped, a `key: value` line sets its key (quotes stripped), and an
/// aliases line takes effect only in inline-array form.
pub open spec fn fm_step(fm: FmView, line: Seq<char>) -> FmView {
    let l = trim_spec(line);
    if l.len() == 0 || l[0] == '#' {
        fm
    } else {
        match find_char_spec(l, ':') {
            None => fm,
            Some(ci) => {
                let key = trim_spec(l.take(ci));
                let value = unquote(trim_spec(l.skip(ci + 1)));
                if key == "id"@ {
                    FmView { id: Some(value), ..fm }
                } else if key == "title"@ {
                    FmView { title: Some(value), ..fm }
                } else if key == "short"@ {
                    FmView { short: Some(value), ..fm }
                } else if key == "aliases"@ {
                    if value.len() >= 2 && value[0] == '[' && value.last() == ']' {
                        FmView {
                            aliases: clean_pieces(
                                split_on(value.subrange(1, value.len() - 1), ','),
                            ),
                            ..fm
                        }
                    } else {
                        fm
                    }
                } else {
                    fm
                }
            },
        }
    }
}

/// The frontmatter lines folded in order.
pub open spec fn fm_fold(lines: Seq<Seq<char>>) -> FmView
    decreases lines.len(),
{
    if lines.len() == 0 {
        fm_empty()
    } else {
        fm_step(fm_fold(lines.drop_last()), lines.last())
    }
}

/// What the simple YAML-like parser reads from a frontmatter block.
pub open spec fn yaml_spec(yaml: Seq<char>) -> FmView {
    fm_fold(lines_of(yaml))
}

/// How a definition file splits into frontmatter and body: a file that
/// starts with a frontmatter fence and closes it gets its block parsed and
/// its body trimmed; any other file is all body.
pub open spec fn split_fm(content: Seq<char>) -> (Option<FmView>, Seq<char>) {
    if !(content.len() >= 3 && content.subrange(0, 3) == "---"@) {
        (None, content)
    } else {
        match find_sub_spec(content.skip(3), "---"@) {
            None => (None, content),
            Some(j) => (
                Some(yaml_spec(trim_spec(content.skip(3).take(j)))),
                trim_spec(content.skip(3).skip(j + 3)),
            ),
        }
    }
}

/// The title taken from the first markdown heading of the body, if any.
pub open spec fn md_title_lines(lines: Seq<Seq<char>>) -> Option<Seq<char>>
    decreases lines.len(),
{
    if lines.len() == 0 {
        None
    } else {
        let l0 = trim_spec(lines[0]);
        if l0.len() >= 2 && l0.subrange(0, 2) == "# "@ {
            Some(trim_spec(l0.skip(2)))
        } else {
            md_title_lines(lines.drop_first())
        }
    }
}

/// The title taken from the first markdown heading, if any.
pub open spec fn md_title(body: Seq<char>) -> Option<Seq<char>> {
    md_title_lines(lines_of(body))
}

/// A valid id consists of lowercase letters, digits and underscores, and is
/// not empty.
pub open spec fn id_char(c: char) -> bool {
    ('a' <= c && c <= 'z') || ('0' <= c && c <= '9') || c == '_'
}

/// Whether an id matches the required shape.
pub open spec fn valid_id(s: Seq<char>) -> bool {
    s.len() > 0 && forall|i: int| 0 <= i < s.len() ==> id_char(#[trigger] s[i])
}

/// Executable id validation.
pub fn is_valid_id(id: &str) -> (r: bool)
    ensures
        r == valid_id(id@),
{
    let n = id.unicode_len();
    if n == 0 {
        return false;
    }
    let mut i: usize = 0;
    while i < n
        invariant
            n == id@.len(),
            i <= n,
            forall|k: int| 0 <= k < i ==> id_char(#[trigger] id@[k]),
        decreases n - i,
    {
        let c = id.get_char(i);
        let ok = ('a' <= c && c <= 'z') || ('0' <= c && c <= '9') || c == '_';
        if !ok {
            return false;
        }
        i = i + 1;
    }
    true
}

/// Parse a frontmatter block line by line.
pub fn parse_simple_yaml(yaml: &str) -> (r: Frontmatter)
    ensures
        r@ == yaml_spec(yaml@),
{
    let lines = split_lines(yaml);
    let ghost lv = lines.deep_view();
    let n = lines.len();
    let mut fm = Frontmatter { id: None, title: None, short: None, aliases: Vec::new() };
    let mut i: usize = 0;
    proof {
        assert(lv.subrange(0, 0) =~= Seq::<Seq<char>>::empty());
        assert(fm@.aliases =~= Seq::<Seq<char>>::empty());
        assert(fm@ == fm_fold(lv.subrange(0, 0)));
    }
    while i < n
        invariant
            n == lines@.len(),
            lv == lines.deep_view(),
            lv == lines_of(yaml@),
            i <= n,
            fm@ == fm_fold(lv.subrange(0, i as int)),
        decreases n - i,
    {
        proof {
            let cur = lv.subrange(0, i as int + 1);
            assert(cur.drop_last() =~= lv.subrange(0, i as int));
            assert(cur.last() == lv[i as int]);
            assert(lv[i as int] == lines@[i as int]@);
        }
        let line = trim_str(lines[i].as_str());
        let ln = line.unicode_len();
        let skip_line = ln == 0 || line.get_char(0) == '#';
        if !skip_line {
            match find_char(line, ':') {
                Some(ci) => {
                    let key = trim_str(line.substring_char(0, ci));
                    let raw_value = trim_str(line.substring_char(ci + 1, ln));
                    let value = trim_char(trim_char(raw_value, '"'), '\'');
                    proof {
                        assert(line@.take(ci as int) =~= line@.subrange(0, ci as int));
                        assert(line@.skip(ci as int + 1) =~= line@.subrange(
                            ci as int + 1,
                            ln as int,
                        ));
                    }
                    if str_eq(key, "id") {
                        fm.id = Some(String::from_str(value));
                    } else if str_eq(key, "title") {
                        fm.title = Some(String::from_str(value));
                    } else if str_eq(key, "short") {
                        fm.short = Some(String::from_str(value));
                    } else if str_eq(key, "aliases") {
                        let vn = value.unicode_len();
                        let is_array = vn >= 2 && value.get_char(0) == '[' && value.get_char(
                            vn - 1,
                        ) == ']';
                        if is_array {
                            let inner = value.substring_char(1, vn - 1);
                            fm.aliases = clean_alias_pieces(inner);
                            proof {
                                assert(inner@ =~= value@.subrange(1, value@.len() - 1));
                            }
                        }
                    }
                },
                None => {},
            }
        }
        i = i + 1;
    }
    proof {
        assert(lv.subrange(0, n as int) =~= lv);
    }
    fm
}

/// Split an inline alias array's inner text and clean each piece.
fn clean_alias_pieces(inner: &str) -> (r: Vec<String>)
    ensures
        r.deep_view() == clean_pieces(split_on(inner@, ',')),
{
    let pieces = split_on_char(inner, ',');
    let ghost pv = pieces.deep_view();
    let n = pieces.len();
    let mut out: Vec<String> = Vec::new();
    let mut i: usize = 0;
    proof {
        assert(pv.subrange(0, 0) =~= Seq::<Seq<char>>::empty());
        assert(out.deep_view() =~= clean_pieces(pv.subrange(0, 0)));
    }
    while i < n
        invariant
            n == pieces@.len(),
            pv == pieces.deep_view(),
            i <= n,
            out.deep_view() == clean_pieces(pv.subrange(0, i as int)),
        decreases n - i,
    {
        proof {
            let cur = pv.subrange(0, i as int + 1);
            assert(cur.drop_last() =~= pv.subrange(0, i as int));
            assert(cur.last() == pv[i as int]);
            assert(pv[i as int] == pieces@[i as int]@);
        }
        let cleaned = trim_char(trim_char(trim_str(pieces[i].as_str()), '"'), '\'');
        if cleaned.unicode_len() > 0 {
            let ghost prev = out@;
            let ghost prev_dv = out.deep_view();
            out.push(String::from_str(cleaned));
            proof {
                crate::strutil::lemma_deep_view_push(out, prev, out@[prev.len() as int]);
                assert(Seq::new(prev.len(), |k: int| prev[k].deep_view()) =~= prev_dv);
                assert(out.deep_view() =~= prev_dv.push(cleaned@));
            }
        }
        i = i + 1;
    }
    proof {
        assert(pv.subrange(0, n as int) =~= pv);
    }
    out
}

/// Split a definition file into its parsed frontmatter and its body.
pub fn parse_frontmatter(content: &str) -> (r: (Option<Frontmatter>, String))
    ensures
        (match r.0 {
            Some(fm) => split_fm(content@).0 == Some(fm@),
            None => split_fm(content@).0 is None,
        }),
        r.1@ == split_fm(content@).1,
{
    proof {
        reveal_strlit("---");
    }
    if !starts_with_str(content, "---") {
        return (None, String::from_str(content));
    }
    let n = content.unicode_len();
    let rest = content.substring_char(3, n);
    proof {
        assert(rest@ =~= content@.skip(3));
    }
    match find_first(rest, "---") {
        None => (None, String::from_str(content)),
        Some(j) => {
            let rn = rest.unicode_len();
            let yaml_raw = rest.substring_char(0, j);
            proof {
                assert(yaml_raw@ =~= content@.skip(3).take(j as int));
            }
            let fm = parse_simple_yaml(trim_str(yaml_raw));
            let body = trim_str(rest.substring_char(j + 3, rn));
            proof {
                assert(rest@.subrange(j as int + 3, rn as int) =~= content@.skip(3).skip(
                    j as int + 3,
                ));
            }
            (Some(fm), String::from_str(body))
        },
    }
}

/// The first markdown heading of the body, trimmed.
pub fn extract_title_from_markdown(content: &str) -> (r: Option<String>)
    ensures
        match r {
            Some(t) => md_title(content@) == Some(t@),
            None => md_title(content@) is None,
        },
{
    let lines = split_lines(content);
    let ghost lv = lines.deep_view();
    let n = lines.len();
    let mut i: usize = 0;
    proof {
        assert(lv.skip(0) =~= lv);
    }
    while i < n
        invariant
            n == lines@.len(),
            lv == lines.deep_view(),
            lv == lines_of(content@),
            i <= n,
            md_title_lines(lv) == md_title_lines(lv.skip(i as int)),
        decreases n - i,
    {
        proof {
            assert(lv.skip(i as int)[0] == lv[i as int]);
            assert(lv[i as int] == lines@[i as int]@);
            assert(lv.skip(i as int).drop_first() =~= lv.skip(i as int + 1));
            reveal_strlit("# ");
        }
        let line = trim_str(lines[i].as_str());
        let ln = line.unicode_len();
        if starts_with_str(line, "# ") {
            let t = trim_str(line.substring_char(2, ln));
            proof {
                assert(line@.subrange(2, ln as int) =~= line@.skip(2));
            }
            return Some(String::from_str(t));
        }
        proof {
            if trim_spec(lv[i as int]).len() >= 2 && trim_spec(lv[i as int]).subrange(0, 2)
                == "# "@ {
                assert(line@.subrange(0, 2) == "# "@);
            }
        }
        i = i + 1;
    }
    proof {
        assert(lv.skip(n as int).len() == 0);
    }
    None
}

/// One definition file as the loader hands it over: where it lives, its
/// name without extension, and its full text.
pub struct DefinitionFile {
    /// The path the file was read from, for error messages and hashing.
    pub path: String,
    /// The file name without its extension: the default id.
    pub stem: String,
    /// The file's full text.
    pub content: String,
}

/// The mathematical content of a `DefinitionFile`.
pub ghost struct FileView {
    pub path: Seq<char>,
    pub stem: Seq<char>,
    pub content: Seq<char>,
}

impl View for DefinitionFile {
    type V = FileView;

    open spec fn view(&self) -> FileView {
        FileView { path: self.path@, stem: self.stem@, content: self.content@ }
    }
}

impl DeepView for DefinitionFile {
    type V = FileView;

    open spec fn deep_view(&self) -> FileView {
        self.view()
    }
}

/// The id a file defines: the frontmatter id when given, else the file
/// stem.
pub open spec fn file_id(f: FileView) -> Seq<char> {
    match split_fm(f.content).0 {
        Some(fm) => match fm.id {
            Some(i) => i,
            None => f.stem,
        },
        None => f.stem,
    }
}

/// The title a file defines: the frontmatter title, else the body's first
/// heading, else the id with underscores as spaces.
pub open spec fn file_title(f: FileView) -> Seq<char> {
    let fm_title = match split_fm(f.content).0 {
        Some(fm) => fm.title,
        None => None,
    };
    match fm_title {
        Some(t) => t,
        None => match md_title(split_fm(f.content).1) {
            Some(t) => t,
            None => replace_spec(file_id(f), "_"@, " "@),
        },
    }
}

/// The definition a file yields.
pub open spec fn def_of(f: FileView) -> DefView {
    DefView {
        id: file_id(f),
        title: file_title(f),
        aliases: match split_fm(f.content).0 {
            Some(fm) => fm.aliases,
            None => Seq::empty(),
        },
        short: match split_fm(f.content).0 {
            Some(fm) => fm.short,
            None => None,
        },
        content: f.content,
        file_path: f.path,
    }
}

/// The definitions of a file list, in order.
pub open spec fn defs_of(files: Seq<FileView>) -> Seq<DefView> {
    Seq::new(files.len(), |i: int| def_of(files[i]))
}

/// The files before index `i` all carry valid, pairwise distinct ids.
pub open spec fn ok_upto(files: Seq<FileView>, i: int) -> bool {
    &&& (forall|k: int| 0 <= k < i ==> valid_id(file_id(#[trigger] files[k])))
    &&& (forall|j: int, k: int|
        0 <= j < k < i ==> file_id(#[trigger] files[j]) != file_id(#[trigger] files[k]))
}

/// Turn loaded definition files into validated definitions, sorted by id:
/// each file's id must be valid and fresh — the first invalid id or
/// duplicate is the error, a duplicate naming both files — and an empty
/// list is itself an error naming the directory.
pub fn assemble_definitions(files: &Vec<DefinitionFile>, dir: &str) -> (r: Result<
    Vec<TagDefinition>,
    DefinitionsError,
>)
    ensures
        match r {
            Ok(defs) => {
                &&& files@.len() > 0
                &&& ok_upto(files.deep_view(), files@.len() as int)
                &&& defs.deep_view() == crate::model::sort_defs_spec(defs_of(files.deep_view()))
            },
            Err(e) => match e {
                DefinitionsError::InvalidId { id } => exists|i: int|
                    0 <= i < files@.len() && ok_upto(files.deep_view(), i) && !valid_id(
                        file_id(#[trigger] files.deep_view()[i]),
                    ) && id@ == file_id(files.deep_view()[i]),
                DefinitionsError::DuplicateId { id, files: fs } => exists|i: int, j: int|
                    {
                        &&& 0 <= j < i < files@.len()
                        &&& ok_upto(files.deep_view(), i)
                        &&& valid_id(file_id(#[trigger] files.deep_view()[i]))
                        &&& file_id(#[trigger] files.deep_view()[j]) == file_id(
                            files.deep_view()[i],
                        )
                        &&& id@ == file_id(files.deep_view()[i])
                        &&& fs.deep_view() =~= seq![
                            files.deep_view()[j].path,
                            files.deep_view()[i].path,
                        ]
                    },
                DefinitionsError::Empty(d) => files@.len() == 0 && d@ == dir@,
                _ => false,
            },
        },
{
    let ghost fv = files.deep_view();
    let n = files.len();
    if n == 0 {
        return Err(DefinitionsError::Empty(String::from_str(dir)));
    }
    let mut out: Vec<TagDefinition> = Vec::new();
    let mut seen: Vec<(String, String)> = Vec::new();
    let mut i: usize = 0;
    proof {
        assert(out.deep_view() =~= defs_of(fv).subrange(0, 0));
    }
    while i < n
        invariant
            n == files@.len(),
            fv == files.deep_view(),
            i <= n,
            ok_upto(fv, i as int),
            seen@.len() == i,
            forall|k: int|
                0 <= k < i ==> (#[trigger] seen@[k]).0@ == file_id(fv[k]) && seen@[k].1@
                    == fv[k].path,
            out@.len() == i,
            out.deep_view() == defs_of(fv).subrange(0, i as int),
        decreases n - i,
    {
        proof {
            assert(fv[i as int] == files@[i as int]@);
        }
        let f = &files[i];
        let (fm_opt, body) = parse_frontmatter(f.content.as_str());
        let id: String = match &fm_opt {
            Some(fm) => match &fm.id {
                Some(given) => given.clone(),
                None => f.stem.clone(),
            },
            None => f.stem.clone(),
        };
        proof {
            assert(id@ == file_id(fv[i as int]));
        }
        if !is_valid_id(id.as_str()) {
            return Err(DefinitionsError::InvalidId { id });
        }
        let mut k: usize = 0;
        while k < i
            invariant
                i < n == files@.len(),
                fv == files.deep_view(),
                ok_upto(fv, i as int),
                valid_id(id@),
                f@ == fv[i as int],
                seen@.len() == i,
                forall|m: int|
                    0 <= m < i ==> (#[trigger] seen@[m]).0@ == file_id(fv[m]) && seen@[m].1@
                        == fv[m].path,
                k <= i,
                id@ == file_id(fv[i as int]),
                forall|m: int| 0 <= m < k ==> file_id(#[trigger] fv[m]) != id@,
            decreases i - k,
        {
            if str_eq(seen[k].0.as_str(), id.as_str()) {
                let existing = seen[k].1.clone();
                let here = f.path.clone();
                let ghost e_view = existing@;
                let ghost h_view = here@;
                let mut fs: Vec<String> = Vec::new();
                fs.push(existing);
                fs.push(here);
                proof {
                    assert(fs@.len() == 2);
                    assert(fs@[0]@ == e_view);
                    assert(fs@[1]@ == h_view);
                    assert(fs.deep_view()[0] == fs@[0]@);
                    assert(fs.deep_view()[1] == fs@[1]@);
                    assert(e_view == fv[k as int].path);
                    assert(h_view == fv[i as int].path);
                    assert(fs.deep_view() =~= seq![fv[k as int].path, fv[i as int].path]);
                    assert(file_id(fv[k as int]) == id@);
                    assert(valid_id(file_id(fv[i as int])));
                }
                return Err(DefinitionsError::DuplicateId { id, files: fs });
            }
            k = k + 1;
        }
        let title: String = match &fm_opt {
            Some(fm) => match &fm.title {
                Some(t) => t.clone(),
                None => match extract_title_from_markdown(body.as_str()) {
                    Some(t) => t,
                    None => {
                        proof {
                            reveal_strlit("_");
                        }
                        replace_str(id.as_str(), "_", " ")
                    },
                },
            },
            None => match extract_title_from_markdown(body.as_str()) {
                Some(t) => t,
                None => {
                    proof {
                        reveal_strlit("_");
                    }
                    replace_str(id.as_str(), "_", " ")
                },
            },
        };
        let aliases: Vec<String> = match &fm_opt {
            Some(fm) => crate::model::clone_strings(&fm.aliases),
            None => Vec::new(),
        };
        let short: Option<String> = match &fm_opt {
            Some(fm) => crate::model::clone_opt_string(&fm.short),
            None => None,
        };
        let def = TagDefinition {
            id: id.clone(),
            title,
            aliases,
            short,
            content: f.content.clone(),
            file_path: f.path.clone(),
        };
        proof {
            assert(def@.aliases =~= def_of(fv[i as int]).aliases);
            assert(def@ == def_of(fv[i as int]));
        }
        let ghost prev = out@;
        let ghost prev_dv = out.deep_view();
        seen.push((id, f.path.clone()));
        out.push(def);
        proof {
            crate::strutil::lemma_deep_view_push(out, prev, out@[prev.len() as int]);
            assert(Seq::new(prev.len(), |m: int| prev[m].deep_view()) =~= prev_dv);
            assert(out.deep_view() =~= defs_of(fv).subrange(0, i as int + 1));
        }
        i = i + 1;
    }
    proof {
        assert(defs_of(fv).subrange(0, n as int) =~= defs_of(fv));
    }
    let t = crate::model::Taxonomy::new(out);
    proof {
        crate::model::lemma_sort_defs_spec_ensures(defs_of(fv));
    }
    Ok(t.definitions)
}

} // verus!
