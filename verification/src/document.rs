//! Knowledge-base documents: file type detection from the path, rule-based
//! classification into domain, equipment and source type, and the record a
//! parsed document becomes.
use vstd::prelude::*;

use crate::text::{concat, contains_any, has_any, has_sub, lower, lower_char, lower_vec, chars_of, owned, str_contains, string_of, views};

verus! {

/// The document formats the knowledge base reads.
#[derive(Clone, Copy, Debug, PartialEq, Eq, Structural)]
pub enum FileType {
    Pdf,
    Docx,
    Xlsx,
    Csv,
    Txt,
    Markdown,
    Json,
    Jpg,
    Jpeg,
    Png,
    Mp4,
}

/// The short name of a file type.
pub open spec fn file_type_name(t: FileType) -> Seq<char> {
    match t {
        FileType::Pdf => "pdf"@,
        FileType::Docx => "docx"@,
        FileType::Xlsx => "xlsx"@,
        FileType::Csv => "csv"@,
        FileType::Txt => "txt"@,
        FileType::Markdown => "md"@,
        FileType::Json => "json"@,
        FileType::Jpg => "jpg"@,
        FileType::Jpeg => "jpeg"@,
        FileType::Png => "png"@,
        FileType::Mp4 => "mp4"@,
    }
}

/// Images and video are kept as media only; their text is not read.
pub open spec fn reserved_media(t: FileType) -> bool {
    t is Jpg || t is Jpeg || t is Png || t is Mp4
}

impl FileType {
    /// The short name of the file type.
    pub fn as_str(self) -> (r: &'static str)
        ensures
            r@ == file_type_name(self),
    {
        match self {
            FileType::Pdf => "pdf",
            FileType::Docx => "docx",
            FileType::Xlsx => "xlsx",
            FileType::Csv => "csv",
            FileType::Txt => "txt",
            FileType::Markdown => "md",
            FileType::Json => "json",
            FileType::Jpg => "jpg",
            FileType::Jpeg => "jpeg",
            FileType::Png => "png",
            FileType::Mp4 => "mp4",
        }
    }

    /// Whether the file type is an image or a video.
    pub fn is_reserved_media(self) -> (r: bool)
        ensures
            r == reserved_media(self),
    {
        match self {
            FileType::Jpg | FileType::Jpeg | FileType::Png | FileType::Mp4 => true,
            _ => false,
        }
    }

    /// The short name of the file type, as an owned string.
    pub fn to_string(&self) -> (r: String)
        ensures
            r@ == file_type_name(*self),
    {
        owned(self.as_str())
    }
}

// ---------------------------------------------------------------------------
// File names and extensions
// ---------------------------------------------------------------------------

/// A path component that names something (not empty, not `.`).
pub open spec fn named_component(seg: Seq<char>) -> bool {
    seg.len() > 0 && seg != seq!['.']
}

/// The last named component of `p` followed by `seg` (the characters after
/// the last separator seen so far, scanning from the end).
pub open spec fn last_component(p: Seq<char>, seg: Seq<char>) -> Option<Seq<char>>
    decreases p.len(),
{
    if p.len() == 0 {
        if named_component(seg) {
            Some(seg)
        } else {
            None
        }
    } else if p.last() == '/' {
        if named_component(seg) {
            Some(seg)
        } else {
            last_component(p.drop_last(), Seq::empty())
        }
    } else {
        last_component(p.drop_last(), seq![p.last()] + seg)
    }
}

/// The file name of a `/`-separated path: its last component, unless that
/// is `..` or there is none (as `Path::file_name` has it).
pub open spec fn file_name(p: Seq<char>) -> Option<Seq<char>> {
    match last_component(p, Seq::empty()) {
        Some(name) => if name == seq!['.', '.'] {
            None
        } else {
            Some(name)
        },
        None => None,
    }
}

/// The part of `name` after its last dot, `after` holding the characters
/// already scanned from the end; none when there is no dot or the only dot
/// starts the name (as `Path::extension` has it).
pub open spec fn extension_scan(name: Seq<char>, after: Seq<char>) -> Option<Seq<char>>
    decreases name.len(),
{
    if name.len() == 0 {
        None
    } else if name.last() == '.' {
        if name.len() == 1 {
            None
        } else {
            Some(after)
        }
    } else {
        extension_scan(name.drop_last(), seq![name.last()] + after)
    }
}

/// The extension of a path's file name.
pub open spec fn extension(p: Seq<char>) -> Option<Seq<char>> {
    match file_name(p) {
        Some(name) => extension_scan(name, Seq::empty()),
        None => None,
    }
}

/// The file type that an ASCII-lower-cased extension names.
pub open spec fn file_type_of(ext: Seq<char>) -> Option<FileType> {
    if ext == "pdf"@ {
        Some(FileType::Pdf)
    } else if ext == "docx"@ {
        Some(FileType::Docx)
    } else if ext == "xlsx"@ {
        Some(FileType::Xlsx)
    } else if ext == "csv"@ {
        Some(FileType::Csv)
    } else if ext == "txt"@ {
        Some(FileType::Txt)
    } else if ext == "md"@ || ext == "markdown"@ {
        Some(FileType::Markdown)
    } else if ext == "json"@ {
        Some(FileType::Json)
    } else if ext == "jpg"@ {
        Some(FileType::Jpg)
    } else if ext == "jpeg"@ {
        Some(FileType::Jpeg)
    } else if ext == "png"@ {
        Some(FileType::Png)
    } else if ext == "mp4"@ {
        Some(FileType::Mp4)
    } else {
        None
    }
}

/// The file type of a path, by its extension ignoring ASCII case.
pub open spec fn detect_spec(p: Seq<char>) -> Option<FileType> {
    match extension(p) {
        Some(e) => file_type_of(lower(e)),
        None => None,
    }
}

/// The file name of a path, scanning backwards.
pub(crate) fn file_name_exec(p: &Vec<char>) -> (r: Option<Vec<char>>)
    ensures
        match r {
            Some(v) => file_name(p@) == Some(v@),
            None => file_name(p@) is None,
        },
{
    let mut n: usize = p.len();
    let mut seg: Vec<char> = Vec::new();
    assert(p@.take(p.len() as int) =~= p@);
    let mut done = false;
    while n > 0 && !done
        invariant
            n <= p.len(),
            !done ==> last_component(p@, Seq::empty()) == last_component(p@.take(n as int), seg@),
            done ==> last_component(p@, Seq::empty()) == Some(seg@),
        decreases n + (if done { 0int } else { 1int }),
    {
        let c = p[n - 1];
        let ghost cur = p@.take(n as int);
        assert(cur.drop_last() =~= p@.take(n - 1));
        assert(cur.last() == c);
        if c == '/' {
            if seg.len() > 0 && !(seg.len() == 1 && seg[0] == '.') {
                assert(named_component(seg@)) by {
                    if seg@ == seq!['.'] {
                        assert(seg@[0] == '.');
                    }
                }
                done = true;
            } else {
                assert(!named_component(seg@)) by {
                    if seg.len() == 1 && seg@[0] == '.' {
                        assert(seg@ =~= seq!['.']);
                    }
                }
                seg = Vec::new();
                n = n - 1;
            }
        } else {
            let ghost old_seg = seg@;
            seg.insert(0, c);
            assert(seg@ =~= seq![c] + old_seg);
            n = n - 1;
        }
    }
    if !done {
        assert(p@.take(0) =~= Seq::<char>::empty());
        if seg.len() > 0 && !(seg.len() == 1 && seg[0] == '.') {
            assert(named_component(seg@)) by {
                if seg@ == seq!['.'] {
                    assert(seg@[0] == '.');
                }
            }
        } else {
            assert(!named_component(seg@)) by {
                if seg.len() == 1 && seg@[0] == '.' {
                    assert(seg@ =~= seq!['.']);
                }
            }
            return None;
        }
    }
    if seg.len() == 2 && seg[0] == '.' && seg[1] == '.' {
        assert(seg@ =~= seq!['.', '.']);
        return None;
    }
    assert(seg@ != seq!['.', '.']) by {
        if seg@ == seq!['.', '.'] {
            assert(seg@[0] == '.' && seg@[1] == '.');
        }
    }
    Some(seg)
}

/// The extension of a file name, scanning backwards.
fn extension_exec(name: &Vec<char>) -> (r: Option<Vec<char>>)
    ensures
        match r {
            Some(v) => extension_scan(name@, Seq::empty()) == Some(v@),
            None => extension_scan(name@, Seq::empty()) is None,
        },
{
    let mut n: usize = name.len();
    let mut after: Vec<char> = Vec::new();
    assert(name@.take(name.len() as int) =~= name@);
    while n > 0
        invariant
            n <= name.len(),
            extension_scan(name@, Seq::empty()) == extension_scan(name@.take(n as int), after@),
        decreases n,
    {
        let c = name[n - 1];
        let ghost cur = name@.take(n as int);
        assert(cur.drop_last() =~= name@.take(n - 1));
        assert(cur.last() == c);
        if c == '.' {
            if n == 1 {
                return None;
            }
            return Some(after);
        }
        let ghost old_after = after@;
        after.insert(0, c);
        assert(after@ =~= seq![c] + old_after);
        n = n - 1;
    }
    None
}

/// The extension of a path's file name (`Path::extension`).
pub fn path_extension(p: &Vec<char>) -> (r: Option<Vec<char>>)
    ensures
        match r {
            Some(v) => extension(p@) == Some(v@),
            None => extension(p@) is None,
        },
{
    match file_name_exec(p) {
        Some(n) => extension_exec(&n),
        None => None,
    }
}

/// Whether the characters equal the string slice.
fn chars_eq(v: &Vec<char>, s: &str) -> (r: bool)
    ensures
        r == (v@ == s@),
{
    let w = chars_of(s);
    crate::text::vec_eq(v, &w)
}

/// The file type of a path, by the extension of its file name ignoring
/// ASCII case; none for an unknown extension or a path without one.
pub fn detect_file_type(path: &str) -> (r: Option<FileType>)
    ensures
        r == detect_spec(path@),
{
    let p = chars_of(path);
    let ext = match path_extension(&p) {
        Some(e) => e,
        None => return None,
    };
    let e = lower_vec(&ext);
    if chars_eq(&e, "pdf") {
        Some(FileType::Pdf)
    } else if chars_eq(&e, "docx") {
        Some(FileType::Docx)
    } else if chars_eq(&e, "xlsx") {
        Some(FileType::Xlsx)
    } else if chars_eq(&e, "csv") {
        Some(FileType::Csv)
    } else if chars_eq(&e, "txt") {
        Some(FileType::Txt)
    } else if chars_eq(&e, "md") || chars_eq(&e, "markdown") {
        Some(FileType::Markdown)
    } else if chars_eq(&e, "json") {
        Some(FileType::Json)
    } else if chars_eq(&e, "jpg") {
        Some(FileType::Jpg)
    } else if chars_eq(&e, "jpeg") {
        Some(FileType::Jpeg)
    } else if chars_eq(&e, "png") {
        Some(FileType::Png)
    } else if chars_eq(&e, "mp4") {
        Some(FileType::Mp4)
    } else {
        None
    }
}

// ---------------------------------------------------------------------------
// Classification
// ---------------------------------------------------------------------------

/// What `str::to_lowercase` gives for a text (full Unicode lower-casing).
pub uninterp spec fn unicode_lower(s: Seq<char>) -> Seq<char>;

/// The Unicode lower-case form of a string (`str::to_lowercase`); on an
/// ASCII string it is the ASCII lower-casing (letters `A`-`Z` become
/// `a`-`z`, every other character is kept), as std documents.
#[verifier::external_body]
fn to_lowercase(s: &str) -> (r: String)
    ensures
        r@ == unicode_lower(s@),
        (forall|i: int| 0 <= i < s@.len() ==> (s@[i] as u32) < 128) ==> r@ == crate::text::lower(s@),
{
    s.to_lowercase()
}

/// The metadata the knowledge base keeps for a document.
pub struct DocumentMetadata {
    pub file_type: String,
    pub domain: String,
    pub equipment: String,
    pub source_type: String,
    pub original_path: String,
    pub parser_status: String,
    pub reserved_media: bool,
}

/// A document: its text (none for media) and metadata.
pub struct DocumentRecord {
    pub text: Option<String>,
    pub metadata: DocumentMetadata,
}

/// The text that classification reads: the lower-cased path, and the
/// lower-cased document text after a newline when there is one.
pub open spec fn haystack_spec(path: Seq<char>, text: Option<Seq<char>>) -> Seq<char> {
    match text {
        Some(t) => unicode_lower(path) + "\n"@ + unicode_lower(t),
        None => unicode_lower(path),
    }
}

/// The domain a document belongs to, by the first rule whose keywords occur.
pub open spec fn domain_spec(h: Seq<char>, t: FileType) -> Seq<char> {
    if reserved_media(t) && has_any(h, views(["uav", "无人机", "巡检照片", "inspection image", "blade", "叶片"]@)) {
        "Blade"@
    } else if has_any(h, views(["blade", "叶片", "裂纹", "leading edge", "前缘", "叶尖", "雷击"]@)) {
        "Blade"@
    } else if has_any(h, views(["gearbox", "齿轮箱", "油温", "轴承", "bearing"]@)) {
        "Gearbox"@
    } else if has_any(h, views(["generator", "发电机", "绝缘", "定子", "转子"]@)) {
        "Generator"@
    } else if has_any(h, views(["converter", "变流器", "逆变", "整流", "igbt"]@)) {
        "Converter"@
    } else if has_any(h, views(["scada", "scada_rules", "风速", "功率曲线", "报警", "运行数据", "power curve"]@)) {
        "SCADA"@
    } else if has_any(h, views(["yaw", "偏航"]@)) {
        "Yaw"@
    } else if has_any(h, views(["pitch", "变桨"]@)) {
        "Pitch"@
    } else if has_any(h, views(["hydraulic", "液压"]@)) {
        "Hydraulic"@
    } else if has_any(h, views(["tower", "塔筒"]@)) {
        "Tower"@
    } else if has_any(h, views(["foundation", "基础", "锚栓"]@)) {
        "Foundation"@
    } else if has_any(h, views(["vibration", "振动", "频谱"]@)) {
        "Gearbox"@
    } else if has_any(h, views(["safety", "高压", "吊装", "并网", "工作票", "安全"]@)) {
        "Safety"@
    } else {
        "Maintenance"@
    }
}

/// The domain a document belongs to.
pub fn classify_domain(haystack: &str, file_type: FileType) -> (r: String)
    ensures
        r@ == domain_spec(haystack@, file_type),
{
    let h = haystack;
    if file_type.is_reserved_media() && contains_any(h, &["uav", "无人机", "巡检照片", "inspection image", "blade", "叶片"]) {
        owned("Blade")
    } else if contains_any(h, &["blade", "叶片", "裂纹", "leading edge", "前缘", "叶尖", "雷击"]) {
        owned("Blade")
    } else if contains_any(h, &["gearbox", "齿轮箱", "油温", "轴承", "bearing"]) {
        owned("Gearbox")
    } else if contains_any(h, &["generator", "发电机", "绝缘", "定子", "转子"]) {
        owned("Generator")
    } else if contains_any(h, &["converter", "变流器", "逆变", "整流", "igbt"]) {
        owned("Converter")
    } else if contains_any(h, &["scada", "scada_rules", "风速", "功率曲线", "报警", "运行数据", "power curve"]) {
        owned("SCADA")
    } else if contains_any(h, &["yaw", "偏航"]) {
        owned("Yaw")
    } else if contains_any(h, &["pitch", "变桨"]) {
        owned("Pitch")
    } else if contains_any(h, &["hydraulic", "液压"]) {
        owned("Hydraulic")
    } else if contains_any(h, &["tower", "塔筒"]) {
        owned("Tower")
    } else if contains_any(h, &["foundation", "基础", "锚栓"]) {
        owned("Foundation")
    } else if contains_any(h, &["vibration", "振动", "频谱"]) {
        owned("Gearbox")
    } else if contains_any(h, &["safety", "高压", "吊装", "并网", "工作票", "安全"]) {
        owned("Safety")
    } else {
        owned("Maintenance")
    }
}

/// The equipment a document is about, by the first rule that matches.
pub open spec fn equipment_spec(h: Seq<char>, t: FileType) -> Seq<char> {
    if has_any(h, views(["thermal", "红外", "热像"]@)) {
        "thermal"@
    } else if has_any(h, views(["blade", "叶片", "裂纹", "leading edge"]@)) {
        "blade"@
    } else if t == FileType::Mp4 || has_any(h, views(["uav", "无人机"]@)) {
        "uav"@
    } else if has_any(h, views(["gearbox", "齿轮箱"]@)) {
        "gearbox"@
    } else if has_any(h, views(["generator", "发电机"]@)) {
        "generator"@
    } else if has_any(h, views(["vibration", "振动", "频谱"]@)) {
        "vibration"@
    } else if has_any(h, views(["converter", "变流器"]@)) {
        "converter"@
    } else if has_any(h, views(["yaw", "偏航"]@)) {
        "yaw_system"@
    } else if has_any(h, views(["pitch", "变桨"]@)) {
        "pitch_system"@
    } else if has_any(h, views(["hydraulic", "液压"]@)) {
        "hydraulic_system"@
    } else if has_any(h, views(["tower", "塔筒"]@)) {
        "tower"@
    } else if has_any(h, views(["foundation", "基础"]@)) {
        "foundation"@
    } else if has_any(h, views(["scada", "报警", "功率曲线"]@)) {
        "scada"@
    } else {
        "turbine"@
    }
}

/// The equipment a document is about.
pub fn classify_equipment(haystack: &str, file_type: FileType) -> (r: String)
    ensures
        r@ == equipment_spec(haystack@, file_type),
{
    let h = haystack;
    if contains_any(h, &["thermal", "红外", "热像"]) {
        owned("thermal")
    } else if contains_any(h, &["blade", "叶片", "裂纹", "leading edge"]) {
        owned("blade")
    } else if file_type == FileType::Mp4 || contains_any(h, &["uav", "无人机"]) {
        owned("uav")
    } else if contains_any(h, &["gearbox", "齿轮箱"]) {
        owned("gearbox")
    } else if contains_any(h, &["generator", "发电机"]) {
        owned("generator")
    } else if contains_any(h, &["vibration", "振动", "频谱"]) {
        owned("vibration")
    } else if contains_any(h, &["converter", "变流器"]) {
        owned("converter")
    } else if contains_any(h, &["yaw", "偏航"]) {
        owned("yaw_system")
    } else if contains_any(h, &["pitch", "变桨"]) {
        owned("pitch_system")
    } else if contains_any(h, &["hydraulic", "液压"]) {
        owned("hydraulic_system")
    } else if contains_any(h, &["tower", "塔筒"]) {
        owned("tower")
    } else if contains_any(h, &["foundation", "基础"]) {
        owned("foundation")
    } else if contains_any(h, &["scada", "报警", "功率曲线"]) {
        owned("scada")
    } else {
        owned("turbine")
    }
}

/// The kind of source a document is, by the folder its key path names.
pub open spec fn source_type_spec(key: Seq<char>, t: FileType) -> Seq<char> {
    if reserved_media(t) {
        "reserved_media"@
    } else if has_sub(key, "manuals/"@) {
        "manual"@
    } else if has_sub(key, "fault_cases/"@) {
        "fault_case"@
    } else if has_sub(key, "inspection_reports/"@) || has_sub(key, "uav_inspection/"@) {
        "inspection_report"@
    } else if has_sub(key, "maintenance_records/"@) {
        "maintenance_record"@
    } else if has_sub(key, "regulations/"@) {
        "regulation"@
    } else if has_sub(key, "vibration_analysis/"@) {
        "vibration_analysis"@
    } else if has_sub(key, "scada_rules/"@) {
        "scada_rule"@
    } else if has_sub(key, "safety_rules/"@) {
        "safety_rule"@
    } else {
        "document"@
    }
}

/// The kind of source a document is, from its lower-cased key path.
pub fn classify_source_type(key_path: &str, file_type: FileType) -> (r: String)
    ensures
        r@ == source_type_spec(unicode_lower(key_path@), file_type),
{
    let key = to_lowercase(key_path);
    let k = key.as_str();
    if file_type.is_reserved_media() {
        owned("reserved_media")
    } else if str_contains(k, "manuals/") {
        owned("manual")
    } else if str_contains(k, "fault_cases/") {
        owned("fault_case")
    } else if str_contains(k, "inspection_reports/") || str_contains(k, "uav_inspection/") {
        owned("inspection_report")
    } else if str_contains(k, "maintenance_records/") {
        owned("maintenance_record")
    } else if str_contains(k, "regulations/") {
        owned("regulation")
    } else if str_contains(k, "vibration_analysis/") {
        owned("vibration_analysis")
    } else if str_contains(k, "scada_rules/") {
        owned("scada_rule")
    } else if str_contains(k, "safety_rules/") {
        owned("safety_rule")
    } else {
        owned("document")
    }
}

/// Every backslash of the path replaced by a slash.
pub open spec fn slashed(p: Seq<char>) -> Seq<char> {
    Seq::new(p.len(), |i: int| if p[i] == '\\' { '/' } else { p[i] })
}

/// A path with every backslash replaced by a slash.
pub fn forward_slashes(path: &str) -> (r: String)
    ensures
        r@ == slashed(path@),
{
    let p = chars_of(path);
    let mut out: Vec<char> = Vec::new();
    let mut i: usize = 0;
    while i < p.len()
        invariant
            i <= p.len(),
            p@ == path@,
            out@ =~= slashed(path@).take(i as int),
        decreases p.len() - i,
    {
        if p[i] == '\\' {
            out.push('/');
        } else {
            out.push(p[i]);
        }
        i = i + 1;
    }
    string_of(&out)
}

/// The text classification reads.
fn classification_haystack(path: &str, text: Option<&str>) -> (r: String)
    ensures
        r@ == haystack_spec(path@, crate::graph::opt_str_view(text)),
{
    let mut value = to_lowercase(path);
    if let Some(t) = text {
        crate::text::push_char(&mut value, '\n');
        let lt = to_lowercase(t);
        crate::text::push_str(&mut value, lt.as_str());
        proof {
            reveal_strlit("\n");
        }
        assert(value@ =~= unicode_lower(path@) + "\n"@ + unicode_lower(t@));
    }
    value
}

/// The metadata that classification gives a document.
pub open spec fn metadata_matches(
    m: DocumentMetadata,
    path: Seq<char>,
    key_path: Seq<char>,
    t: FileType,
    text: Option<Seq<char>>,
) -> bool {
    let h = haystack_spec(path, text);
    &&& m.file_type@ == file_type_name(t)
    &&& m.domain@ == domain_spec(h, t)
    &&& m.equipment@ == equipment_spec(h, t)
    &&& m.source_type@ == source_type_spec(unicode_lower(key_path), t)
    &&& m.original_path@ == slashed(path)
    &&& m.parser_status@ == (if reserved_media(t) {
        "reserved_media_only"@
    } else {
        "parsed_text"@
    })
    &&& m.reserved_media == reserved_media(t)
}

/// Classifies a document by its path, key path, type and text.
pub fn classify_document(path: &str, key_path: &str, file_type: FileType, text: Option<&str>) -> (r:
    DocumentMetadata)
    ensures
        metadata_matches(r, path@, key_path@, file_type, crate::graph::opt_str_view(text)),
{
    let haystack = classification_haystack(path, text);
    let domain = classify_domain(haystack.as_str(), file_type);
    let equipment = classify_equipment(haystack.as_str(), file_type);
    let source_type = classify_source_type(key_path, file_type);
    DocumentMetadata {
        file_type: owned(file_type.as_str()),
        domain,
        equipment,
        source_type,
        original_path: forward_slashes(path),
        parser_status: if file_type.is_reserved_media() {
            owned("reserved_media_only")
        } else {
            owned("parsed_text")
        },
        reserved_media: file_type.is_reserved_media(),
    }
}

/// The message for a path whose type is not supported.
pub open spec fn unsupported_message(path: Seq<char>) -> Seq<char> {
    "unsupported file type: "@ + path
}

/// The record of a document, given the outcome of reading its text (which
/// is not looked at for media): an error for an unsupported type, the read
/// error when reading failed, else the text with its classification.
pub fn parse_document(path: &str, key_path: &str, content: Result<String, String>) -> (r: Result<
    DocumentRecord,
    String,
>)
    ensures
        match detect_spec(path@) {
            None => r is Err && r->Err_0@ == unsupported_message(path@),
            Some(t) => if reserved_media(t) {
                r is Ok && r->Ok_0.text is None && metadata_matches(
                    r->Ok_0.metadata,
                    path@,
                    key_path@,
                    t,
                    None,
                )
            } else {
                match content {
                    Err(e) => r == Err::<DocumentRecord, String>(e),
                    Ok(text) => r is Ok && r->Ok_0.text == Some(text) && metadata_matches(
                        r->Ok_0.metadata,
                        path@,
                        key_path@,
                        t,
                        Some(text@),
                    ),
                }
            },
        },
{
    let file_type = match detect_file_type(path) {
        Some(t) => t,
        None => return Err(concat("unsupported file type: ", path)),
    };
    if file_type.is_reserved_media() {
        let metadata = classify_document(path, key_path, file_type, None);
        return Ok(DocumentRecord { text: None, metadata });
    }
    match content {
        Err(e) => Err(e),
        Ok(text) => {
            let metadata = classify_document(path, key_path, file_type, Some(text.as_str()));
            Ok(DocumentRecord { text: Some(text), metadata })
        },
    }
}

// ---------------------------------------------------------------------------
// PDF literal strings
// ---------------------------------------------------------------------------

/// The literal strings of a PDF byte stream, scanned from position `i`.
/// `depth` is the parenthesis nesting (0 outside a literal) and `cur` the
/// bytes of the literal being read. A backslash takes the next byte as is;
/// nested parentheses stay in the literal; a literal left open at the end
/// still counts.
pub open spec fn pdf_scan(b: Seq<u8>, i: nat, depth: nat, cur: Seq<u8>) -> Seq<Seq<u8>>
    decreases b.len() - i,
{
    if i >= b.len() {
        if depth == 0 {
            Seq::empty()
        } else {
            seq![cur]
        }
    } else if depth == 0 {
        if b[i as int] == 40u8 {
            pdf_scan(b, i + 1, 1, Seq::empty())
        } else {
            pdf_scan(b, i + 1, 0, Seq::empty())
        }
    } else if b[i as int] == 92u8 && i + 1 < b.len() {
        pdf_scan(b, i + 2, depth, cur.push(b[i + 1int]))
    } else if b[i as int] == 40u8 {
        pdf_scan(b, i + 1, depth + 1, cur.push(40u8))
    } else if b[i as int] == 41u8 {
        if depth == 1 {
            seq![cur] + pdf_scan(b, i + 1, 0, Seq::empty())
        } else {
            pdf_scan(b, i + 1, (depth - 1) as nat, cur.push(41u8))
        }
    } else {
        pdf_scan(b, i + 1, depth, cur.push(b[i as int]))
    }
}

/// The literal strings of a PDF byte stream.
pub open spec fn pdf_literals(b: Seq<u8>) -> Seq<Seq<u8>> {
    pdf_scan(b, 0, 0, Seq::empty())
}

/// What `String::from_utf8_lossy` gives for some bytes.
pub uninterp spec fn utf8_lossy(bytes: Seq<u8>) -> Seq<char>;

/// What `char::is_alphanumeric` says of a character.
pub uninterp spec fn alphanumeric(c: char) -> bool;

/// The bytes decoded as UTF-8, invalid sequences replaced
/// (`String::from_utf8_lossy`); ASCII bytes, being valid UTF-8, come back as
/// the same characters one for one.
#[verifier::external_body]
fn from_utf8_lossy(bytes: &Vec<u8>) -> (r: String)
    ensures
        r@ == utf8_lossy(bytes@),
        (forall|i: int| 0 <= i < bytes@.len() ==> #[trigger] bytes@[i] < 128) ==> {
            &&& r@.len() == bytes@.len()
            &&& forall|i: int| 0 <= i < bytes@.len() ==> (#[trigger] r@[i] as u32) == (bytes@[i] as u32)
        },
{
    String::from_utf8_lossy(bytes.as_slice()).into_owned()
}

/// Whether a character is alphabetic or numeric (`char::is_alphanumeric`);
/// among ASCII characters exactly the letters and digits are.
#[verifier::external_body]
fn is_alphanumeric(c: char) -> (r: bool)
    ensures
        r == alphanumeric(c),
        (c as u32) < 128 ==> (r == (('a' <= c && c <= 'z') || ('A' <= c && c <= 'Z') || ('0' <= c
            && c <= '9'))),
{
    c.is_alphanumeric()
}

/// Some character of the text is alphanumeric.
pub open spec fn has_alphanumeric(s: Seq<char>) -> bool {
    exists|i: int| 0 <= i < s.len() && alphanumeric(#[trigger] s[i])
}

/// The decoded literals that hold an alphanumeric character, each followed
/// by a newline.
pub open spec fn pdf_text(lits: Seq<Seq<u8>>) -> Seq<char>
    decreases lits.len(),
{
    if lits.len() == 0 {
        Seq::empty()
    } else {
        let s = utf8_lossy(lits.last());
        pdf_text(lits.drop_last()) + if has_alphanumeric(s) {
            s + "\n"@
        } else {
            Seq::empty()
        }
    }
}

fn any_alphanumeric(s: &str) -> (r: bool)
    ensures
        r == has_alphanumeric(s@),
{
    let c = chars_of(s);
    let mut i: usize = 0;
    while i < c.len()
        invariant
            i <= c.len(),
            c@ == s@,
            forall|j: int| 0 <= j < i ==> !alphanumeric(#[trigger] s@[j]),
        decreases c.len() - i,
    {
        if is_alphanumeric(c[i]) {
            return true;
        }
        i = i + 1;
    }
    false
}

/// The text of the literal strings of a PDF byte stream: each literal that
/// decodes to something with an alphanumeric character, followed by a newline.
pub fn extract_pdf_literal_strings(bytes: &[u8]) -> (r: String)
    ensures
        r@ == pdf_text(pdf_literals(bytes@)),
{
    let ghost b = bytes@;
    let mut out = String::new();
    let ghost mut lits: Seq<Seq<u8>> = Seq::empty();
    let mut i: usize = 0;
    assert(out@ =~= pdf_text(lits));
    while i < bytes.len()
        invariant
            i <= bytes.len(),
            b == bytes@,
            lits + pdf_scan(b, i as nat, 0, Seq::empty()) == pdf_literals(b),
            out@ == pdf_text(lits),
        decreases bytes.len() - i,
    {
        if bytes[i] != 40u8 {
            i = i + 1;
            continue;
        }
        i = i + 1;
        let mut depth: usize = 1;
        let mut value: Vec<u8> = Vec::new();
        let ghost start = i;
        while i < bytes.len() && depth > 0
            invariant
                start <= i <= bytes.len(),
                b == bytes@,
                depth > 0 ==> lits + pdf_scan(b, i as nat, depth as nat, value@) == pdf_literals(b),
                depth == 0 ==> lits + seq![value@] + pdf_scan(b, i as nat, 0, Seq::empty())
                    == pdf_literals(b),
                depth <= i,
            decreases bytes.len() - i,
        {
            let c = bytes[i];
            if c == 92u8 && i + 1 < bytes.len() {
                value.push(bytes[i + 1]);
                i = i + 2;
                continue;
            }
            if c == 40u8 {
                depth = depth + 1;
                value.push(c);
            } else if c == 41u8 {
                depth = depth - 1;
                if depth > 0 {
                    value.push(c);
                } else {
                    assert(seq![value@] + pdf_scan(b, (i + 1) as nat, 0, Seq::empty()) == pdf_scan(
                        b,
                        i as nat,
                        1,
                        value@,
                    ));
                    assert(lits + seq![value@] + pdf_scan(b, (i + 1) as nat, 0, Seq::empty())
                        =~= lits + (seq![value@] + pdf_scan(b, (i + 1) as nat, 0, Seq::empty())));
                }
            } else {
                value.push(c);
            }
            i = i + 1;
        }
        proof {
            if depth > 0 {
                assert(pdf_scan(b, i as nat, depth as nat, value@) == seq![value@]);
                assert(pdf_scan(b, i as nat, 0, Seq::empty()) == Seq::<Seq<u8>>::empty());
                assert(lits + seq![value@] + pdf_scan(b, i as nat, 0, Seq::empty()) =~= lits
                    + seq![value@]);
            }
        }
        let s = from_utf8_lossy(&value);
        let ghost new_lits = lits.push(value@);
        assert(new_lits.drop_last() =~= lits);
        assert(lits + seq![value@] =~= new_lits);
        if any_alphanumeric(s.as_str()) {
            crate::text::push_str(&mut out, s.as_str());
            crate::text::push_char(&mut out, '\n');
            proof {
                reveal_strlit("\n");
            }
            assert(out@ =~= pdf_text(lits) + (s@ + "\n"@));
        } else {
            assert(out@ =~= pdf_text(lits) + Seq::<char>::empty());
        }
        proof {
            lits = new_lits;
        }
    }
    proof {
        assert(lits + Seq::<Seq<u8>>::empty() =~= lits);
    }
    out
}

proof fn lemma_last_component_plain(p: Seq<char>, seg: Seq<char>)
    requires
        forall|i: int| 0 <= i < p.len() ==> p[i] != '/',
        named_component(p + seg),
    ensures
        last_component(p, seg) == Some(p + seg),
    decreases p.len(),
{
    if p.len() == 0 {
        assert(p + seg =~= seg);
    } else {
        assert(p.drop_last() + (seq![p.last()] + seg) =~= p + seg);
        lemma_last_component_plain(p.drop_last(), seq![p.last()] + seg);
    }
}

proof fn lemma_extension_scan_tail(x: Seq<char>, e: Seq<char>, after: Seq<char>)
    requires
        forall|i: int| 0 <= i < e.len() ==> e[i] != '.',
    ensures
        extension_scan(x + e, after) == extension_scan(x, e + after),
    decreases e.len(),
{
    if e.len() > 0 {
        assert((x + e).last() == e.last());
        assert((x + e).drop_last() =~= x + e.drop_last());
        assert(seq![e.last()] + after =~= seq![e.last()] + after);
        lemma_extension_scan_tail(x, e.drop_last(), seq![e.last()] + after);
        assert(e.drop_last() + (seq![e.last()] + after) =~= e + after);
    } else {
        assert(x + e =~= x);
        assert(e + after =~= after);
    }
}

/// The extension of `a.` followed by a non-empty name without dots or
/// slashes is that name.
proof fn lemma_extension_of_plain(e: Seq<char>)
    requires
        e.len() > 0,
        forall|i: int| 0 <= i < e.len() ==> e[i] != '.' && e[i] != '/',
    ensures
        extension("a."@ + e) == Some(e),
{
    reveal_strlit("a.");
    let s = "a."@ + e;
    assert(forall|i: int| 0 <= i < s.len() ==> s[i] != '/') by {
        assert forall|i: int| 0 <= i < s.len() implies s[i] != '/' by {
            if i >= 2 {
                assert(s[i] == e[i - 2]);
            }
        }
    }
    assert(s + Seq::<char>::empty() =~= s);
    assert(s != seq!['.']) by {
        assert(s.len() >= 3);
    }
    lemma_last_component_plain(s, Seq::empty());
    assert(s != seq!['.', '.']) by {
        assert(s[0] == 'a');
    }
    lemma_extension_scan_tail("a."@, e, Seq::empty());
    assert(e + Seq::<char>::empty() =~= e);
    assert("a."@.last() == '.');
    assert("a."@.len() == 2);
}

/// A file named by a type's short name as its extension is detected as that
/// type (so no two types share a short name).
pub proof fn lemma_type_name_round_trip(t: FileType)
    ensures
        detect_spec("a."@ + file_type_name(t)) == Some(t),
{
    reveal_strlit("pdf");
    reveal_strlit("docx");
    reveal_strlit("xlsx");
    reveal_strlit("csv");
    reveal_strlit("txt");
    reveal_strlit("md");
    reveal_strlit("markdown");
    reveal_strlit("json");
    reveal_strlit("jpg");
    reveal_strlit("jpeg");
    reveal_strlit("png");
    reveal_strlit("mp4");
    let e = file_type_name(t);
    assert(forall|i: int| 0 <= i < e.len() ==> e[i] != '.' && e[i] != '/' && !('A' <= e[i] && e[i] <= 'Z'));
    lemma_extension_of_plain(e);
    assert(lower(e) =~= e);
    assert(e[0] == "pdf"@[0] ==> t is Pdf || t is Png);
    assert("pdf"@[0] != "docx"@[0] && "pdf"@[0] != "xlsx"@[0] && "pdf"@[0] != "csv"@[0]);
    assert("pdf"@[0] != "txt"@[0] && "pdf"@[0] != "md"@[0] && "pdf"@[0] != "json"@[0]);
    assert("pdf"@[0] != "jpg"@[0] && "pdf"@[0] != "mp4"@[0] && "pdf"@[1] != "png"@[1]);
    assert("docx"@[0] != "xlsx"@[0] && "docx"@[0] != "json"@[0] && "docx"@[0] != "jpeg"@[0]);
    assert("csv"@[0] != "txt"@[0] && "csv"@[0] != "jpg"@[0] && "csv"@[0] != "png"@[0] && "csv"@[0] != "mp4"@[0]);
    assert("txt"@[0] != "jpg"@[0] && "txt"@[0] != "png"@[0] && "txt"@[0] != "mp4"@[0]);
    assert("jpg"@[0] != "png"@[0] && "jpg"@[0] != "mp4"@[0] && "png"@[0] != "mp4"@[0]);
    assert("json"@[1] != "jpeg"@[1] && "md"@.len() != "markdown"@.len());
}

} // verus!
