//! The categories that the analyzer sorts files into, with their labels,
//! descriptions, display colors and deletion safety.
use vstd::prelude::*;

verus! {

/// What kind of file an entry is, for cleanup purposes.
#[derive(Debug, Clone, Copy, PartialEq, Eq, Hash, Structural)]
pub enum FileCategory {
    Cache,
    TempFiles,
    LargeFiles,
    OldFiles,
    DuplicateName,
    LogFiles,
    BuildArtifacts,
    NodeModules,
    PackageCache,
    HiddenFiles,
    SystemFiles,
    LibraryFiles,
    Downloads,
    Documents,
    Media,
    Archives,
    Regular,
}

/// The number of categories.
pub const CATEGORY_COUNT: usize = 17;

impl FileCategory {
    /// The position of the category in declaration order.
    pub open spec fn rank(self) -> nat {
        match self {
            FileCategory::Cache => 0,
            FileCategory::TempFiles => 1,
            FileCategory::LargeFiles => 2,
            FileCategory::OldFiles => 3,
            FileCategory::DuplicateName => 4,
            FileCategory::LogFiles => 5,
            FileCategory::BuildArtifacts => 6,
            FileCategory::NodeModules => 7,
            FileCategory::PackageCache => 8,
            FileCategory::HiddenFiles => 9,
            FileCategory::SystemFiles => 10,
            FileCategory::LibraryFiles => 11,
            FileCategory::Downloads => 12,
            FileCategory::Documents => 13,
            FileCategory::Media => 14,
            FileCategory::Archives => 15,
            FileCategory::Regular => 16,
        }
    }

    /// The category at position `i` of declaration order.
    pub open spec fn at_rank(i: nat) -> FileCategory {
        if i == 0 { FileCategory::Cache }
        else if i == 1 { FileCategory::TempFiles }
        else if i == 2 { FileCategory::LargeFiles }
        else if i == 3 { FileCategory::OldFiles }
        else if i == 4 { FileCategory::DuplicateName }
        else if i == 5 { FileCategory::LogFiles }
        else if i == 6 { FileCategory::BuildArtifacts }
        else if i == 7 { FileCategory::NodeModules }
        else if i == 8 { FileCategory::PackageCache }
        else if i == 9 { FileCategory::HiddenFiles }
        else if i == 10 { FileCategory::SystemFiles }
        else if i == 11 { FileCategory::LibraryFiles }
        else if i == 12 { FileCategory::Downloads }
        else if i == 13 { FileCategory::Documents }
        else if i == 14 { FileCategory::Media }
        else if i == 15 { FileCategory::Archives }
        else { FileCategory::Regular }
    }

    /// The label shown for the category.
    pub open spec fn label(self) -> Seq<char> {
        match self {
            FileCategory::Cache => "🗑️ Cache"@,
            FileCategory::TempFiles => "🌡️ Temp Files"@,
            FileCategory::LargeFiles => "📦 Large Files"@,
            FileCategory::OldFiles => "📅 Old Files"@,
            FileCategory::DuplicateName => "👯 Duplicate Names"@,
            FileCategory::LogFiles => "📜 Log Files"@,
            FileCategory::BuildArtifacts => "🔨 Build Artifacts"@,
            FileCategory::NodeModules => "📦 node_modules"@,
            FileCategory::PackageCache => "📥 Package Cache"@,
            FileCategory::HiddenFiles => "👁️ Hidden Files"@,
            FileCategory::SystemFiles => "⚙️ System Files"@,
            FileCategory::LibraryFiles => "📚 Library Files"@,
            FileCategory::Downloads => "⬇️ Downloads"@,
            FileCategory::Documents => "📄 Documents"@,
            FileCategory::Media => "🎬 Media"@,
            FileCategory::Archives => "🗜️ Archives"@,
            FileCategory::Regular => "📁 Regular"@,
        }
    }

    /// The explanation shown for the category.
    pub open spec fn explanation(self) -> Seq<char> {
        match self {
            FileCategory::Cache => "Temporary cache files that can be safely deleted. Will be regenerated."@,
            FileCategory::TempFiles => "Temporary files. Usually safe to delete."@,
            FileCategory::LargeFiles => "Large files over 100MB. Review before deleting."@,
            FileCategory::OldFiles => "Files not accessed in over a year. May be obsolete."@,
            FileCategory::DuplicateName => "Files with same name in different locations. May be duplicates."@,
            FileCategory::LogFiles => "Application log files. Can grow large over time."@,
            FileCategory::BuildArtifacts => "Compiled code and build outputs. Can be regenerated."@,
            FileCategory::NodeModules => "JavaScript dependencies. Can be reinstalled with npm/yarn."@,
            FileCategory::PackageCache => "Downloaded packages. Can be re-downloaded when needed."@,
            FileCategory::HiddenFiles => "Hidden files (start with .). May contain important configs."@,
            FileCategory::SystemFiles => "⚠️ SYSTEM FILES - Required for OS operation. DO NOT DELETE!"@,
            FileCategory::LibraryFiles => "Application data in Library folder. Deleting may break apps."@,
            FileCategory::Downloads => "Downloaded files. Review before deleting."@,
            FileCategory::Documents => "User documents. Be careful!"@,
            FileCategory::Media => "Photos, videos, audio files. User content."@,
            FileCategory::Archives => "Compressed archives (.zip, .tar, etc). May be backup copies."@,
            FileCategory::Regular => "Regular files."@,
        }
    }

    /// The name of the terminal color the category is drawn in.
    pub open spec fn color_label(self) -> Seq<char> {
        match self {
            FileCategory::Cache => "Yellow"@,
            FileCategory::TempFiles => "Red"@,
            FileCategory::LargeFiles => "Magenta"@,
            FileCategory::OldFiles => "Cyan"@,
            FileCategory::DuplicateName => "Blue"@,
            FileCategory::LogFiles => "LightYellow"@,
            FileCategory::BuildArtifacts => "LightRed"@,
            FileCategory::NodeModules => "LightMagenta"@,
            FileCategory::PackageCache => "LightCyan"@,
            FileCategory::HiddenFiles => "Gray"@,
            FileCategory::SystemFiles => "Red"@,
            FileCategory::LibraryFiles => "LightBlue"@,
            FileCategory::Downloads => "Green"@,
            FileCategory::Documents => "White"@,
            FileCategory::Media => "LightGreen"@,
            FileCategory::Archives => "Yellow"@,
            FileCategory::Regular => "White"@,
        }
    }

    /// Whether files of the category can usually be deleted without harm.
    pub open spec fn safe(self) -> bool {
        match self {
            FileCategory::Cache => true,
            FileCategory::TempFiles => true,
            FileCategory::LargeFiles => false,
            FileCategory::OldFiles => true,
            FileCategory::DuplicateName => true,
            FileCategory::LogFiles => true,
            FileCategory::BuildArtifacts => true,
            FileCategory::NodeModules => true,
            FileCategory::PackageCache => true,
            FileCategory::HiddenFiles => false,
            FileCategory::SystemFiles => false,
            FileCategory::LibraryFiles => false,
            FileCategory::Downloads => true,
            FileCategory::Documents => false,
            FileCategory::Media => false,
            FileCategory::Archives => true,
            FileCategory::Regular => false,
        }
    }

    /// The position of the category in declaration order.
    pub fn index(&self) -> (i: usize)
        ensures
            i == self.rank(),
            i < CATEGORY_COUNT,
    {
        match self {
            FileCategory::Cache => 0,
            FileCategory::TempFiles => 1,
            FileCategory::LargeFiles => 2,
            FileCategory::OldFiles => 3,
            FileCategory::DuplicateName => 4,
            FileCategory::LogFiles => 5,
            FileCategory::BuildArtifacts => 6,
            FileCategory::NodeModules => 7,
            FileCategory::PackageCache => 8,
            FileCategory::HiddenFiles => 9,
            FileCategory::SystemFiles => 10,
            FileCategory::LibraryFiles => 11,
            FileCategory::Downloads => 12,
            FileCategory::Documents => 13,
            FileCategory::Media => 14,
            FileCategory::Archives => 15,
            FileCategory::Regular => 16,
        }
    }

    /// The label shown for the category.
    pub fn as_str(&self) -> (s: &'static str)
        ensures
            s@ == self.label(),
    {
        match self {
            FileCategory::Cache => "🗑️ Cache",
            FileCategory::TempFiles => "🌡️ Temp Files",
            FileCategory::LargeFiles => "📦 Large Files",
            FileCategory::OldFiles => "📅 Old Files",
            FileCategory::DuplicateName => "👯 Duplicate Names",
            FileCategory::LogFiles => "📜 Log Files",
            FileCategory::BuildArtifacts => "🔨 Build Artifacts",
            FileCategory::NodeModules => "📦 node_modules",
            FileCategory::PackageCache => "📥 Package Cache",
            FileCategory::HiddenFiles => "👁️ Hidden Files",
            FileCategory::SystemFiles => "⚙️ System Files",
            FileCategory::LibraryFiles => "📚 Library Files",
            FileCategory::Downloads => "⬇️ Downloads",
            FileCategory::Documents => "📄 Documents",
            FileCategory::Media => "🎬 Media",
            FileCategory::Archives => "🗜️ Archives",
            FileCategory::Regular => "📁 Regular",
        }
    }

    /// The name of the terminal color the category is drawn in, as the
    /// color's `Display` prints it.
    pub fn color(&self) -> (s: &'static str)
        ensures
            s@ == self.color_label(),
    {
        match self {
            FileCategory::Cache => "Yellow",
            FileCategory::TempFiles => "Red",
            FileCategory::LargeFiles => "Magenta",
            FileCategory::OldFiles => "Cyan",
            FileCategory::DuplicateName => "Blue",
            FileCategory::LogFiles => "LightYellow",
            FileCategory::BuildArtifacts => "LightRed",
            FileCategory::NodeModules => "LightMagenta",
            FileCategory::PackageCache => "LightCyan",
            FileCategory::HiddenFiles => "Gray",
            FileCategory::SystemFiles => "Red",
            FileCategory::LibraryFiles => "LightBlue",
            FileCategory::Downloads => "Green",
            FileCategory::Documents => "White",
            FileCategory::Media => "LightGreen",
            FileCategory::Archives => "Yellow",
            FileCategory::Regular => "White",
        }
    }

    /// Whether files of the category can usually be deleted without harm.
    pub fn is_safe_to_delete(&self) -> (b: bool)
        ensures
            b == self.safe(),
    {
        match self {
            FileCategory::Cache => true,
            FileCategory::TempFiles => true,
            FileCategory::LargeFiles => false,
            FileCategory::OldFiles => true,
            FileCategory::DuplicateName => true,
            FileCategory::LogFiles => true,
            FileCategory::BuildArtifacts => true,
            FileCategory::NodeModules => true,
            FileCategory::PackageCache => true,
            FileCategory::HiddenFiles => false,
            FileCategory::SystemFiles => false,
            FileCategory::LibraryFiles => false,
            FileCategory::Downloads => true,
            FileCategory::Documents => false,
            FileCategory::Media => false,
            FileCategory::Archives => true,
            FileCategory::Regular => false,
        }
    }

    /// The explanation shown for the category.
    pub fn description(&self) -> (s: &'static str)
        ensures
            s@ == self.explanation(),
    {
        match self {
            FileCategory::Cache => "Temporary cache files that can be safely deleted. Will be regenerated.",
            FileCategory::TempFiles => "Temporary files. Usually safe to delete.",
            FileCategory::LargeFiles => "Large files over 100MB. Review before deleting.",
            FileCategory::OldFiles => "Files not accessed in over a year. May be obsolete.",
            FileCategory::DuplicateName => "Files with same name in different locations. May be duplicates.",
            FileCategory::LogFiles => "Application log files. Can grow large over time.",
            FileCategory::BuildArtifacts => "Compiled code and build outputs. Can be regenerated.",
            FileCategory::NodeModules => "JavaScript dependencies. Can be reinstalled with npm/yarn.",
            FileCategory::PackageCache => "Downloaded packages. Can be re-downloaded when needed.",
            FileCategory::HiddenFiles => "Hidden files (start with .). May contain important configs.",
            FileCategory::SystemFiles => "⚠️ SYSTEM FILES - Required for OS operation. DO NOT DELETE!",
            FileCategory::LibraryFiles => "Application data in Library folder. Deleting may break apps.",
            FileCategory::Downloads => "Downloaded files. Review before deleting.",
            FileCategory::Documents => "User documents. Be careful!",
            FileCategory::Media => "Photos, videos, audio files. User content.",
            FileCategory::Archives => "Compressed archives (.zip, .tar, etc). May be backup copies.",
            FileCategory::Regular => "Regular files.",
        }
    }
}

/// Every category, in declaration order.
pub fn all_categories() -> (v: Vec<FileCategory>)
    ensures
        v@.len() == CATEGORY_COUNT,
        forall|i: int| 0 <= i < CATEGORY_COUNT ==> #[trigger] v@[i] == FileCategory::at_rank(i as nat),
{
    let mut v: Vec<FileCategory> = Vec::new();
    v.push(FileCategory::Cache);
    v.push(FileCategory::TempFiles);
    v.push(FileCategory::LargeFiles);
    v.push(FileCategory::OldFiles);
    v.push(FileCategory::DuplicateName);
    v.push(FileCategory::LogFiles);
    v.push(FileCategory::BuildArtifacts);
    v.push(FileCategory::NodeModules);
    v.push(FileCategory::PackageCache);
    v.push(FileCategory::HiddenFiles);
    v.push(FileCategory::SystemFiles);
    v.push(FileCategory::LibraryFiles);
    v.push(FileCategory::Downloads);
    v.push(FileCategory::Documents);
    v.push(FileCategory::Media);
    v.push(FileCategory::Archives);
    v.push(FileCategory::Regular);
    v
}

/// `at_rank` undoes `rank`.
pub proof fn lemma_rank_inverse(c: FileCategory)
    ensures
        FileCategory::at_rank(c.rank()) == c,
        c.rank() < CATEGORY_COUNT,
{
}


/// Different categories have different labels, so a category is found
/// again from its label.
pub proof fn law_category_labels_distinct(a: FileCategory, b: FileCategory)
    requires
        a != b,
    ensures
        a.label() != b.label(),
{
    reveal_strlit("🗑️ Cache");
    reveal_strlit("🌡️ Temp Files");
    reveal_strlit("📦 Large Files");
    reveal_strlit("📅 Old Files");
    reveal_strlit("👯 Duplicate Names");
    reveal_strlit("📜 Log Files");
    reveal_strlit("🔨 Build Artifacts");
    reveal_strlit("📦 node_modules");
    reveal_strlit("📥 Package Cache");
    reveal_strlit("👁️ Hidden Files");
    reveal_strlit("⚙️ System Files");
    reveal_strlit("📚 Library Files");
    reveal_strlit("⬇️ Downloads");
    reveal_strlit("📄 Documents");
    reveal_strlit("🎬 Media");
    reveal_strlit("🗜️ Archives");
    reveal_strlit("📁 Regular");
    if a.label() == b.label() {
        assert(a.label().len() == b.label().len());
        assert(a.label()[0] == b.label()[0]);
        assert(a.label()[2] == b.label()[2]);
        assert(a.label()[3] == b.label()[3]);
        assert(a.label()[a.label().len() - 1] == b.label()[b.label().len() - 1]);
    }
}


/// The categories that are safe to delete are exactly caches, temporary
/// files, old files, duplicate names, logs, build outputs, node_modules,
/// package caches, downloads and archives; large, hidden, system, library,
/// document, media and regular files are not.
pub proof fn law_safe_categories(c: FileCategory)
    ensures
        c.safe() <==> (c == FileCategory::Cache || c == FileCategory::TempFiles || c == FileCategory::OldFiles
            || c == FileCategory::DuplicateName || c == FileCategory::LogFiles || c == FileCategory::BuildArtifacts
            || c == FileCategory::NodeModules || c == FileCategory::PackageCache || c == FileCategory::Downloads
            || c == FileCategory::Archives),
{
}

} // verus!
