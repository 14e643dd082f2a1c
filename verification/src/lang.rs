//! Filename filters and the language classifier: which entries the walker
//! keeps, and which language profile a kept file is scanned with.

use vstd::prelude::*;

use crate::strutil::ends_with;
use crate::strutil::str_ends_with;
use crate::strutil::str_eq;
use crate::strutil::views_of;

verus! {

/// The fixed, case-sensitive set of recognized extensions: a filename passes
/// the coarse filter exactly when it ends in one of these.
pub open spec fn valid_extension(name: Seq<char>) -> bool {
    ||| ends_with(name, ".c"@)
    ||| ends_with(name, ".cpp"@)
    ||| ends_with(name, ".cc"@)
    ||| ends_with(name, ".cxx"@)
    ||| ends_with(name, ".py"@)
    ||| ends_with(name, ".js"@)
}

/// Check if the file extension can be parsed by this program. Return true if
/// it can, false if it cannot.
/// Currently supported extensions are for C, C++, Python, and Javascript.
pub fn is_file_extension_valid(file: &str) -> (r: bool)
    ensures
        r == valid_extension(file@),
{
    str_ends_with(file, ".c") || str_ends_with(file, ".cpp") || str_ends_with(file, ".cc")
        || str_ends_with(file, ".cxx") || str_ends_with(file, ".py") || str_ends_with(file, ".js")
}

/// An entry name marks a hidden entry when it begins with a dot.
pub open spec fn hidden_name(name: Seq<char>) -> bool {
    name.len() > 0 && name[0] == '.'
}

/// Check if an entry name is hidden. Return true if hidden, false if not.
/// The walk prunes a hidden directory's whole subtree.
pub fn is_hidden(name: &str) -> (r: bool)
    ensures
        r == hidden_name(name@),
{
    let len = name.unicode_len();
    if len == 0 {
        false
    } else {
        name.get_char(0) == '.'
    }
}

/// The language a recognized file is attributed to.
#[derive(Clone, Copy, PartialEq, Eq, Structural, Debug)]
pub enum LanguageTag {
    C,
    Cpp,
    Python,
    JavaScript,
}

/// The characters after the last dot of `name`, or all of `name` when it
/// holds no dot (the whole name then stands in for the extension).
pub open spec fn extension_of(name: Seq<char>) -> Seq<char>
    decreases name.len(),
{
    if name.len() == 0 {
        name
    } else if name[name.len() - 1] == '.' {
        Seq::empty()
    } else {
        extension_of(name.drop_last()).push(name[name.len() - 1])
    }
}

/// The language tag an extension maps to, if any.
pub open spec fn tag_of(ext: Seq<char>) -> Option<LanguageTag> {
    if ext == "c"@ {
        Some(LanguageTag::C)
    } else if ext == "cc"@ || ext == "cxx"@ || ext == "cpp"@ {
        Some(LanguageTag::Cpp)
    } else if ext == "py"@ {
        Some(LanguageTag::Python)
    } else if ext == "js"@ {
        Some(LanguageTag::JavaScript)
    } else {
        None
    }
}

/// What classification returns for a filename.
pub open spec fn classify_spec(name: Seq<char>) -> Option<LanguageTag> {
    tag_of(extension_of(name))
}

proof fn lemma_extension_no_dot(name: Seq<char>)
    requires
        forall|j: int| 0 <= j < name.len() ==> name[j] != '.',
    ensures
        extension_of(name) == name,
    decreases name.len(),
{
    if name.len() > 0 {
        lemma_extension_no_dot(name.drop_last());
        assert(extension_of(name.drop_last()).push(name[name.len() - 1]) =~= name);
    }
}

proof fn lemma_extension_after_dot(name: Seq<char>, k: int)
    requires
        0 <= k < name.len(),
        name[k] == '.',
        forall|j: int| k < j < name.len() ==> name[j] != '.',
    ensures
        extension_of(name) == name.subrange(k + 1, name.len() as int),
    decreases name.len(),
{
    if k == name.len() - 1 {
        assert(extension_of(name) =~= name.subrange(k + 1, name.len() as int));
    } else {
        lemma_extension_after_dot(name.drop_last(), k);
        assert(extension_of(name.drop_last()).push(name[name.len() - 1]) =~= name.subrange(
            k + 1,
            name.len() as int,
        ));
    }
}

/// Map a filename to its language tag by its last extension, or `None` when
/// the extension is unrecognized. The walker's coarse filter admits only
/// names this function classifies, so a `None` here signals an internal
/// inconsistency between the two filters.
pub fn classify(filename: &str) -> (r: Option<LanguageTag>)
    ensures
        r == classify_spec(filename@),
{
    let len = filename.unicode_len();
    let mut i: usize = len;
    while i > 0
        invariant
            len == filename@.len(),
            i <= len,
            forall|j: int| i <= j < len ==> filename@[j] != '.',
        decreases i,
    {
        if filename.get_char(i - 1) == '.' {
            let ext = filename.substring_char(i, len);
            proof {
                lemma_extension_after_dot(filename@, i - 1);
            }
            return classify_ext(ext);
        }
        i = i - 1;
    }
    proof {
        lemma_extension_no_dot(filename@);
    }
    classify_ext(filename)
}

/// Map an already-isolated extension to its tag.
fn classify_ext(ext: &str) -> (r: Option<LanguageTag>)
    ensures
        r == tag_of(ext@),
{
    if str_eq(ext, "c") {
        Some(LanguageTag::C)
    } else if str_eq(ext, "cc") || str_eq(ext, "cxx") || str_eq(ext, "cpp") {
        Some(LanguageTag::Cpp)
    } else if str_eq(ext, "py") {
        Some(LanguageTag::Python)
    } else if str_eq(ext, "js") {
        Some(LanguageTag::JavaScript)
    } else {
        None
    }
}

/// The marker strings one language's source files are scanned with:
/// lines holding a comment marker are discarded, retained lines holding a
/// statement marker and occurrences of logical-operator markers raise the
/// complexity score, and lines holding the function-definition marker are
/// counted as function definitions.
pub struct LanguageProfile {
    pub comments: Vec<String>,
    pub statements: Vec<String>,
    pub logical_ops: Vec<String>,
    pub function_def: String,
}

/// The mathematical content of a profile.
pub ghost struct ProfileView {
    pub comments: Seq<Seq<char>>,
    pub statements: Seq<Seq<char>>,
    pub logical_ops: Seq<Seq<char>>,
    pub function_def: Seq<char>,
}

impl View for LanguageProfile {
    type V = ProfileView;

    open spec fn view(&self) -> ProfileView {
        ProfileView {
            comments: views_of(self.comments@),
            statements: views_of(self.statements@),
            logical_ops: views_of(self.logical_ops@),
            function_def: self.function_def@,
        }
    }
}

/// The comment markers of each language.
pub open spec fn comment_markers(tag: LanguageTag) -> Seq<Seq<char>> {
    match tag {
        LanguageTag::C => seq!["//"@, "/*"@, "*/"@, "*"@, "///"@],
        LanguageTag::Cpp => seq!["//"@, "/*"@, "*/"@, "*"@, "///"@],
        LanguageTag::Python => seq!["#"@],
        LanguageTag::JavaScript => seq!["//"@, "*/"@, "/*"@],
    }
}

/// The statement/keyword markers of each language.
pub open spec fn statement_markers(tag: LanguageTag) -> Seq<Seq<char>> {
    match tag {
        LanguageTag::C => seq![
            "if("@,
            "if ("@,
            "for("@,
            "for ("@,
            "while("@,
            "while ("@,
            "switch"@,
            "break"@,
            "goto"@,
        ],
        LanguageTag::Cpp => seq![
            "if("@,
            "if ("@,
            "for("@,
            "for ("@,
            "while("@,
            "while ("@,
            "switch"@,
            "break"@,
            "goto"@,
        ],
        LanguageTag::Python => seq!["if"@, "for"@, "while"@, "break"@],
        LanguageTag::JavaScript => seq!["if"@, "for"@, "while"@],
    }
}

/// The logical-operator markers of each language.
pub open spec fn logical_op_markers(tag: LanguageTag) -> Seq<Seq<char>> {
    match tag {
        LanguageTag::C => seq!["&&"@, "||"@],
        LanguageTag::Cpp => seq!["&&"@, "||"@],
        LanguageTag::Python => seq!["and"@, "or"@, "not"@],
        LanguageTag::JavaScript => seq!["&&"@, "||"@],
    }
}

/// The function-definition marker of each language.
pub open spec fn function_marker(tag: LanguageTag) -> Seq<char> {
    match tag {
        LanguageTag::C => "return"@,
        LanguageTag::Cpp => "return"@,
        LanguageTag::Python => "def "@,
        LanguageTag::JavaScript => "function"@,
    }
}

/// The profile a given tag selects.
pub open spec fn profile_view(tag: LanguageTag) -> ProfileView {
    ProfileView {
        comments: comment_markers(tag),
        statements: statement_markers(tag),
        logical_ops: logical_op_markers(tag),
        function_def: function_marker(tag),
    }
}

/// Every language has at most three logical-operator markers, which bounds
/// the complexity score a file of a given line count can reach.
pub proof fn lemma_ops_small(tag: LanguageTag)
    ensures
        logical_op_markers(tag).len() <= 3,
{
}

/// Push one marker, keeping the view sequence in step.
fn push_marker(v: &mut Vec<String>, s: &str)
    ensures
        views_of(final(v)@) == views_of(old(v)@).push(s@),
{
    v.push(s.to_owned());
    proof {
        assert(views_of(v@) =~~= views_of(old(v)@).push(s@));
    }
}

/// Build the immutable language profile for one tag.
pub fn profile_for(tag: LanguageTag) -> (p: LanguageProfile)
    ensures
        p@ == profile_view(tag),
{
    let mut comments: Vec<String> = Vec::new();
    let mut statements: Vec<String> = Vec::new();
    let mut logical_ops: Vec<String> = Vec::new();
    let function_def: String;
    match tag {
        LanguageTag::C | LanguageTag::Cpp => {
            push_marker(&mut comments, "//");
            push_marker(&mut comments, "/*");
            push_marker(&mut comments, "*/");
            push_marker(&mut comments, "*");
            push_marker(&mut comments, "///");
            push_marker(&mut statements, "if(");
            push_marker(&mut statements, "if (");
            push_marker(&mut statements, "for(");
            push_marker(&mut statements, "for (");
            push_marker(&mut statements, "while(");
            push_marker(&mut statements, "while (");
            push_marker(&mut statements, "switch");
            push_marker(&mut statements, "break");
            push_marker(&mut statements, "goto");
            push_marker(&mut logical_ops, "&&");
            push_marker(&mut logical_ops, "||");
            function_def = "return".to_owned();
        },
        LanguageTag::Python => {
            push_marker(&mut comments, "#");
            push_marker(&mut statements, "if");
            push_marker(&mut statements, "for");
            push_marker(&mut statements, "while");
            push_marker(&mut statements, "break");
            push_marker(&mut logical_ops, "and");
            push_marker(&mut logical_ops, "or");
            push_marker(&mut logical_ops, "not");
            function_def = "def ".to_owned();
        },
        LanguageTag::JavaScript => {
            push_marker(&mut comments, "//");
            push_marker(&mut comments, "*/");
            push_marker(&mut comments, "/*");
            push_marker(&mut statements, "if");
            push_marker(&mut statements, "for");
            push_marker(&mut statements, "while");
            push_marker(&mut logical_ops, "&&");
            push_marker(&mut logical_ops, "||");
            function_def = "function".to_owned();
        },
    }
    let p = LanguageProfile { comments, statements, logical_ops, function_def };
    proof {
        assert(p@.comments =~~= comment_markers(tag));
        assert(p@.statements =~~= statement_markers(tag));
        assert(p@.logical_ops =~~= logical_op_markers(tag));
    }
    p
}

} // verus!
