use vstd::prelude::*;
use vstd::string::*;
use crate::select::{candidate_paths, select_pdf_files, ListedEntry};

verus! {

/// A well-formed command line: the path to search and the words to look for.
pub struct Invocation {
    pub input: String,
    pub words: Vec<String>,
}

/// The command line names a path and at least one word after the program name.
pub open spec fn usage_ok(args: Seq<Seq<char>>) -> bool {
    args.len() >= 3
}

/// Reads the command line `args` (program name first). It is accepted exactly when it holds a
/// path and at least one word; the words are kept verbatim and in order.
pub fn parse_invocation(args: &Vec<String>) -> (r: Option<Invocation>)
    ensures
        r is Some <==> usage_ok(args.deep_view()),
        r matches Some(inv) ==> inv.input@ == args.deep_view()[1]
            && inv.words.deep_view() == args.deep_view().subrange(2, args.len() as int),
{
    if args.len() < 3 {
        return None;
    }
    let mut words: Vec<String> = Vec::new();
    let mut i: usize = 2;
    while i < args.len()
        invariant
            2 <= i <= args.len(),
            words.deep_view() == args.deep_view().subrange(2, i as int),
        decreases args.len() - i,
    {
        let ghost before = words.deep_view();
        words.push(args[i].clone());
        assert(words.deep_view() =~= before.push(args[i as int]@));
        assert(args.deep_view().subrange(2, i + 1) =~= args.deep_view().subrange(2, i as int).push(args[i as int]@));
        i += 1;
    }
    Some(Invocation { input: args[1].clone(), words })
}

/// What the file system says the input path is.
#[derive(Clone, Copy, PartialEq, Eq, Structural, Debug)]
pub enum InputKind {
    File,
    Directory,
    Neither,
}

/// The files to search for an input path of kind `kind`; `entries` is the listing of the
/// directory and is read only where the path is one.
pub open spec fn candidates_spec(input: Seq<char>, kind: InputKind, entries: Seq<ListedEntry>) -> Option<Seq<Seq<char>>> {
    match kind {
        InputKind::File => Some(seq![input]),
        InputKind::Directory => Some(candidate_paths(input, entries)),
        InputKind::Neither => None,
    }
}

/// The files to search: a file is searched itself, whatever its extension; a directory yields
/// the paths of its regular files with extension exactly `pdf`, joined to the directory, in
/// listing order; any other path is refused.
pub fn candidate_files(input: &str, kind: InputKind, entries: &Vec<ListedEntry>) -> (r: Option<Vec<String>>)
    ensures
        match r {
            Some(files) => candidates_spec(input@, kind, entries@) == Some(files.deep_view()),
            None => candidates_spec(input@, kind, entries@) is None,
        },
{
    match kind {
        InputKind::File => {
            let mut files: Vec<String> = Vec::new();
            files.push(String::from_str(input));
            assert(files.deep_view() =~= seq![input@]);
            Some(files)
        },
        InputKind::Directory => Some(select_pdf_files(input, entries)),
        InputKind::Neither => None,
    }
}

/// The message for a command line without a path and a word.
pub fn usage_message(program: &str) -> (r: String)
    ensures
        r@ == "Usage: "@ + program@ + " <file_or_directory> <word1> [<word2> ...]"@,
{
    let mut out = String::from_str("Usage: ");
    out.append(program);
    out.append(" <file_or_directory> <word1> [<word2> ...]");
    out
}

/// The message for an input path that is neither a file nor a directory; it names the path.
pub fn invalid_path_message(path: &str) -> (r: String)
    ensures
        r@ == "The provided path is neither a file nor a directory: "@ + path@,
{
    let mut out = String::from_str("The provided path is neither a file nor a directory: ");
    out.append(path);
    out
}

} // verus!
