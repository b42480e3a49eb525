//! The categories that files are sorted into, and the table that assigns
//! extensions to them.

use vstd::prelude::*;
use vstd::string::*;
use crate::filename::{extension_of, file_extension_lowercase, lowercase_extension_of};
use crate::text::same_text;

verus! {

/// A bucket for files. `Others` takes what no rule of the table lists.
#[derive(Clone, Copy, PartialEq, Eq, Structural, Debug)]
pub enum Category {
    Images,
    Documents,
    Videos,
    Audio,
    Archives,
    Code,
    Others,
}

impl Category {
    /// The category's name, which is also the name of its subfolder.
    pub open spec fn label(self) -> Seq<char> {
        match self {
            Category::Images => "Images"@,
            Category::Documents => "Documents"@,
            Category::Videos => "Videos"@,
            Category::Audio => "Audio"@,
            Category::Archives => "Archives"@,
            Category::Code => "Code"@,
            Category::Others => "Others"@,
        }
    }

    /// The category's name, which is also the name of its subfolder.
    pub fn name(self) -> (name: &'static str)
        ensures
            name@ == self.label(),
    {
        match self {
            Category::Images => "Images",
            Category::Documents => "Documents",
            Category::Videos => "Videos",
            Category::Audio => "Audio",
            Category::Archives => "Archives",
            Category::Code => "Code",
            Category::Others => "Others",
        }
    }
}

/// A rule of the table as contracts see it: a category and the set of
/// extensions it takes, each in lowercase and without a dot.
pub struct Rule {
    pub category: Category,
    pub extensions: Set<Seq<char>>,
}

/// The set of texts that a list of extensions holds.
pub open spec fn listed(extensions: Seq<&'static str>) -> Set<Seq<char>> {
    Set::new(|e: Seq<char>| exists|j: int| 0 <= j < extensions.len() && extensions[j]@ == e)
}

/// A rule of the table: a category and the extensions it takes.
#[derive(Debug)]
pub struct CategoryEntry {
    pub category: Category,
    pub extensions: Vec<&'static str>,
}

impl View for CategoryEntry {
    type V = Rule;

    open spec fn view(&self) -> Rule {
        Rule { category: self.category, extensions: listed(self.extensions@) }
    }
}

/// The category table: its rules, in the order in which they are tried.
#[derive(Debug)]
pub struct CategoryTable {
    pub entries: Vec<CategoryEntry>,
}

impl View for CategoryTable {
    type V = Seq<Rule>;

    open spec fn view(&self) -> Seq<Rule> {
        Seq::new(self.entries.len() as nat, |i: int| self.entries[i]@)
    }
}

/// Whether rule `i` of `table` is the first that lists `extension`.
pub open spec fn first_listing(table: Seq<Rule>, extension: Seq<char>, i: int) -> bool {
    &&& 0 <= i < table.len()
    &&& table[i].extensions.contains(extension)
    &&& forall|j: int| 0 <= j < i ==> !table[j].extensions.contains(extension)
}

/// The category that `table` gives `extension`: that of the first rule that
/// lists it, and `Others` where none does.
pub open spec fn category_of(table: Seq<Rule>, extension: Seq<char>) -> Category {
    if exists|i: int| first_listing(table, extension, i) {
        table[choose|i: int| first_listing(table, extension, i)].category
    } else {
        Category::Others
    }
}

/// Whether rule `i` of `table` lists `extension` and no other rule does.
pub open spec fn listed_only_by(table: Seq<Rule>, extension: Seq<char>, i: int) -> bool {
    &&& 0 <= i < table.len()
    &&& table[i].extensions.contains(extension)
    &&& forall|j: int| 0 <= j < table.len() && j != i ==> !table[j].extensions.contains(extension)
}

/// Whether no rule of `table` lists `extension`.
pub open spec fn listed_nowhere(table: Seq<Rule>, extension: Seq<char>) -> bool {
    forall|j: int| 0 <= j < table.len() ==> !table[j].extensions.contains(extension)
}

/// Looks `extension` up in `categories`. The extension is compared as it is
/// given: the table lists lowercase extensions without a dot.
pub fn category_for_extension(extension: &str, categories: &CategoryTable) -> (category: Category)
    ensures
        category == category_of(categories@, extension@),
        listed_nowhere(categories@, extension@) ==> category == Category::Others,
        forall|i: int|
            listed_only_by(categories@, extension@, i) ==> category == categories@[i].category,
{
    let mut i: usize = 0;
    while i < categories.entries.len()
        invariant
            i <= categories.entries.len(),
            forall|k: int| 0 <= k < i ==> !categories@[k].extensions.contains(extension@),
        decreases categories.entries.len() - i,
    {
        let entry = &categories.entries[i];
        let mut j: usize = 0;
        while j < entry.extensions.len()
            invariant
                j <= entry.extensions.len(),
                i < categories.entries.len(),
                *entry == categories.entries[i as int],
                forall|k: int| 0 <= k < i ==> !categories@[k].extensions.contains(extension@),
                forall|k: int| 0 <= k < j ==> entry.extensions[k]@ != extension@,
            decreases entry.extensions.len() - j,
        {
            if same_text(entry.extensions[j], extension) {
                assert(first_listing(categories@, extension@, i as int));
                return entry.category;
            }
            j = j + 1;
        }
        i = i + 1;
    }
    Category::Others
}

/// The category that `table` gives the file called `name`: that of its
/// extension in lowercase.
pub open spec fn classification(table: Seq<Rule>, name: Seq<char>) -> Category {
    category_of(table, lowercase_extension_of(name))
}

/// Sorts the file called `name` into a category of `categories`.
pub fn classify(name: &str, categories: &CategoryTable) -> (category: Category)
    ensures
        category == classification(categories@, name@),
        listed_nowhere(categories@, lowercase_extension_of(name@)) ==> category == Category::Others,
        forall|i: int|
            listed_only_by(categories@, lowercase_extension_of(name@), i) ==> category
                == categories@[i].category,
{
    let extension = file_extension_lowercase(name);
    category_for_extension(extension.as_str(), categories)
}

/// An extension that exactly one rule lists belongs to that rule's category,
/// and one that no rule lists belongs to `Others`.
pub proof fn lemma_category_of(table: Seq<Rule>, extension: Seq<char>, i: int)
    ensures
        listed_only_by(table, extension, i) ==> category_of(table, extension) == table[i].category,
        listed_nowhere(table, extension) ==> category_of(table, extension) == Category::Others,
{
    if listed_only_by(table, extension, i) {
        assert(first_listing(table, extension, i));
    }
}

/// A file goes by its lowercase extension alone: to the category of the one
/// rule that lists it, and to `Others` where no rule does.
pub proof fn lemma_classification(table: Seq<Rule>, name: Seq<char>, i: int)
    ensures
        listed_only_by(table, lowercase_extension_of(name), i) ==> classification(table, name)
            == table[i].category,
        listed_nowhere(table, lowercase_extension_of(name)) ==> classification(table, name)
            == Category::Others,
{
    lemma_category_of(table, lowercase_extension_of(name), i);
}

/// The table that the organizer works with.
pub open spec fn standard_table() -> Seq<Rule> {
    seq![
        Rule {
            category: Category::Images,
            extensions: set!["jpg"@, "jpeg"@, "png"@, "gif"@, "svg"@, "bmp"@, "webp"@],
        },
        Rule {
            category: Category::Documents,
            extensions: set![
                "pdf"@,
                "doc"@,
                "docx"@,
                "txt"@,
                "xls"@,
                "xlsx"@,
                "ppt"@,
                "pptx"@,
            ],
        },
        Rule {
            category: Category::Videos,
            extensions: set!["mp4"@, "mov"@, "mkv"@, "webm"@, "avi"@],
        },
        Rule { category: Category::Audio, extensions: set!["mp3"@, "wav"@, "flac"@, "aac"@] },
        Rule {
            category: Category::Archives,
            extensions: set!["zip"@, "rar"@, "tar"@, "gz"@, "7z"@],
        },
        Rule {
            category: Category::Code,
            extensions: set![
                "rs"@,
                "py"@,
                "js"@,
                "ts"@,
                "go"@,
                "java"@,
                "c"@,
                "cpp"@,
                "html"@,
                "css"@,
                "json"@,
                "yaml"@,
                "yml"@,
            ],
        },
    ]
}

/// Builds the table that the organizer works with.
pub fn build_category_map() -> (table: CategoryTable)
    ensures
        table@ == standard_table(),
{
    let images = CategoryEntry {
        category: Category::Images,
        extensions: vec!["jpg", "jpeg", "png", "gif", "svg", "bmp", "webp"],
    };
    let documents = CategoryEntry {
        category: Category::Documents,
        extensions: vec!["pdf", "doc", "docx", "txt", "xls", "xlsx", "ppt", "pptx"],
    };
    let videos = CategoryEntry {
        category: Category::Videos,
        extensions: vec!["mp4", "mov", "mkv", "webm", "avi"],
    };
    let audio = CategoryEntry {
        category: Category::Audio,
        extensions: vec!["mp3", "wav", "flac", "aac"],
    };
    let archives = CategoryEntry {
        category: Category::Archives,
        extensions: vec!["zip", "rar", "tar", "gz", "7z"],
    };
    let code = CategoryEntry {
        category: Category::Code,
        extensions: vec![
            "rs",
            "py",
            "js",
            "ts",
            "go",
            "java",
            "c",
            "cpp",
            "html",
            "css",
            "json",
            "yaml",
            "yml",
        ],
    };
    proof {
        assert(images@.extensions =~= standard_table()[0].extensions);
        assert(documents@.extensions =~= standard_table()[1].extensions);
        assert(videos@.extensions =~= standard_table()[2].extensions);
        assert(audio@.extensions =~= standard_table()[3].extensions);
        assert(archives@.extensions =~= standard_table()[4].extensions);
        assert(code@.extensions =~= standard_table()[5].extensions);
    }
    let table = CategoryTable { entries: vec![images, documents, videos, audio, archives, code] };
    table
}

/// Makes known what the extensions of the standard table spell.
proof fn reveal_standard_extensions()
    ensures
        "jpg"@ == seq!['j', 'p', 'g'],
        "jpeg"@ == seq!['j', 'p', 'e', 'g'],
        "png"@ == seq!['p', 'n', 'g'],
        "gif"@ == seq!['g', 'i', 'f'],
        "svg"@ == seq!['s', 'v', 'g'],
        "bmp"@ == seq!['b', 'm', 'p'],
        "webp"@ == seq!['w', 'e', 'b', 'p'],
        "pdf"@ == seq!['p', 'd', 'f'],
        "doc"@ == seq!['d', 'o', 'c'],
        "docx"@ == seq!['d', 'o', 'c', 'x'],
        "txt"@ == seq!['t', 'x', 't'],
        "xls"@ == seq!['x', 'l', 's'],
        "xlsx"@ == seq!['x', 'l', 's', 'x'],
        "ppt"@ == seq!['p', 'p', 't'],
        "pptx"@ == seq!['p', 'p', 't', 'x'],
        "mp4"@ == seq!['m', 'p', '4'],
        "mov"@ == seq!['m', 'o', 'v'],
        "mkv"@ == seq!['m', 'k', 'v'],
        "webm"@ == seq!['w', 'e', 'b', 'm'],
        "avi"@ == seq!['a', 'v', 'i'],
        "mp3"@ == seq!['m', 'p', '3'],
        "wav"@ == seq!['w', 'a', 'v'],
        "flac"@ == seq!['f', 'l', 'a', 'c'],
        "aac"@ == seq!['a', 'a', 'c'],
        "zip"@ == seq!['z', 'i', 'p'],
        "rar"@ == seq!['r', 'a', 'r'],
        "tar"@ == seq!['t', 'a', 'r'],
        "gz"@ == seq!['g', 'z'],
        "7z"@ == seq!['7', 'z'],
        "rs"@ == seq!['r', 's'],
        "py"@ == seq!['p', 'y'],
        "js"@ == seq!['j', 's'],
        "ts"@ == seq!['t', 's'],
        "go"@ == seq!['g', 'o'],
        "java"@ == seq!['j', 'a', 'v', 'a'],
        "c"@ == seq!['c'],
        "cpp"@ == seq!['c', 'p', 'p'],
        "html"@ == seq!['h', 't', 'm', 'l'],
        "css"@ == seq!['c', 's', 's'],
        "json"@ == seq!['j', 's', 'o', 'n'],
        "yaml"@ == seq!['y', 'a', 'm', 'l'],
        "yml"@ == seq!['y', 'm', 'l'],
{
    reveal_strlit("jpg");
    reveal_strlit("jpeg");
    reveal_strlit("png");
    reveal_strlit("gif");
    reveal_strlit("svg");
    reveal_strlit("bmp");
    reveal_strlit("webp");
    reveal_strlit("pdf");
    reveal_strlit("doc");
    reveal_strlit("docx");
    reveal_strlit("txt");
    reveal_strlit("xls");
    reveal_strlit("xlsx");
    reveal_strlit("ppt");
    reveal_strlit("pptx");
    reveal_strlit("mp4");
    reveal_strlit("mov");
    reveal_strlit("mkv");
    reveal_strlit("webm");
    reveal_strlit("avi");
    reveal_strlit("mp3");
    reveal_strlit("wav");
    reveal_strlit("flac");
    reveal_strlit("aac");
    reveal_strlit("zip");
    reveal_strlit("rar");
    reveal_strlit("tar");
    reveal_strlit("gz");
    reveal_strlit("7z");
    reveal_strlit("rs");
    reveal_strlit("py");
    reveal_strlit("js");
    reveal_strlit("ts");
    reveal_strlit("go");
    reveal_strlit("java");
    reveal_strlit("c");
    reveal_strlit("cpp");
    reveal_strlit("html");
    reveal_strlit("css");
    reveal_strlit("json");
    reveal_strlit("yaml");
    reveal_strlit("yml");
}

/// No extension stands under two rules of the standard table, so the order
/// of its rules decides nothing.
pub proof fn lemma_standard_table_disjoint(extension: Seq<char>, i: int, j: int)
    requires
        0 <= i < standard_table().len(),
        0 <= j < standard_table().len(),
        i != j,
    ensures
        !(standard_table()[i].extensions.contains(extension)
            && standard_table()[j].extensions.contains(extension)),
{
    reveal_standard_extensions();
}

/// In the standard table an extension belongs to the category of any rule
/// that lists it.
pub proof fn lemma_standard_category(extension: Seq<char>, i: int)
    requires
        0 <= i < standard_table().len(),
        standard_table()[i].extensions.contains(extension),
    ensures
        category_of(standard_table(), extension) == standard_table()[i].category,
{
    let table = standard_table();
    assert forall|j: int| 0 <= j < table.len() && j != i implies !table[j].extensions.contains(
        extension,
    ) by {
        lemma_standard_table_disjoint(extension, i, j);
    }
    lemma_category_of(table, extension, i);
}

/// The standard table lists no empty extension.
pub proof fn lemma_standard_empty_extension()
    ensures
        listed_nowhere(standard_table(), Seq::empty()),
        category_of(standard_table(), Seq::empty()) == Category::Others,
{
    reveal_standard_extensions();
    let table = standard_table();
    let none = Seq::<char>::empty();
    assert forall|j: int| 0 <= j < table.len() implies !table[j].extensions.contains(none) by {
        assert(none.len() == 0);
    }
    lemma_category_of(table, none, 0);
}

/// Under the standard table a file without an extension goes to `Others`.
pub proof fn lemma_standard_no_extension(name: Seq<char>)
    requires
        extension_of(name) is None,
    ensures
        classification(standard_table(), name) == Category::Others,
{
    lemma_standard_empty_extension();
}

} // verus!
