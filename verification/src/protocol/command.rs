//! The XML command set: finding the method and its attributes in a request
//! and building the reply.

use crate::player::commanded;
use crate::player::CommandView;
use crate::player::PlayerCommand;
use crate::player::PlayerView;
use crate::program::model::Program;
use crate::program::model::Screen;
use crate::program::parser::ParseError;
use crate::protocol::session::Session;
use crate::services::brightness::clamp_level;
use crate::services::clock::ClockFormat;
use crate::services::clock::WallClock;
use crate::services::manager::ServicesState;
use crate::services::screen_schedule::entry_views;
use crate::services::screen_schedule::ScheduleEntryView;
use crate::services::screen_schedule::ScreenScheduleEntry;
use crate::services::storage::StorageService;
use crate::text::bytes_eq;
use crate::text::decimal;
use crate::text::escaped;
use crate::text::find;
use crate::text::find_bytes;
use crate::text::find_bytes_from;
use crate::text::find_from;
use crate::text::lemma_ascii_boundary;
use crate::text::lemma_ascii_bytes;
use crate::text::lemma_find_from;
use crate::text::matches_at;
use crate::text::parse_decimal;
use crate::text::parse_number;
use crate::text::push_decimal;
use crate::text::push_escaped;
use crate::text::substr;
use crate::text::text_between;
use vstd::prelude::*;
use vstd::slice::slice_subrange;
use vstd::string::*;
use vstd::utf8::*;

verus! {

/// The double quote that closes an attribute value.
pub open spec fn quote() -> Seq<u8> {
    seq![0x22u8]
}

/// The span of the value that follows the first `opener` at or after `from`
/// and runs up to the next double quote.
pub open spec fn quoted_after(xml: Seq<u8>, from: int, opener: Seq<u8>) -> Option<(int, int)> {
    match find_from(xml, opener, from) {
        None => None,
        Some(p) => {
            let start = p + opener.len();
            match find_from(xml, quote(), start) {
                None => None,
                Some(e) => Some((start, e)),
            }
        },
    }
}

/// The text of a span, where there is one.
pub open spec fn span_text(xml: Seq<u8>, span: Option<(int, int)>) -> Option<Seq<char>> {
    match span {
        Some((a, b)) => Some(text_between(xml, a, b)),
        None => None,
    }
}

/// The text of an optional string.
pub open spec fn opt_text(o: Option<String>) -> Option<Seq<char>> {
    match o {
        Some(s) => Some(s@),
        None => None,
    }
}

/// The text of an optional string slice.
pub open spec fn opt_slice_text(o: Option<&str>) -> Option<Seq<char>> {
    match o {
        Some(s) => Some(s@),
        None => None,
    }
}

/// The method named by the first `<in ` element of a request: the value of
/// the first `method="` behind it.
pub open spec fn method_name(xml: Seq<u8>) -> Option<Seq<char>> {
    match find(xml, "<in ".spec_bytes()) {
        None => None,
        Some(i) => span_text(xml, quoted_after(xml, i, "method=\"".spec_bytes())),
    }
}

/// The pattern that opens an element: `<` and the element's name.
pub open spec fn element_opener(element: Seq<u8>) -> Seq<u8> {
    seq![0x3cu8] + element
}

/// The pattern that opens an attribute value: the name, `=` and `"`.
pub open spec fn attr_opener(attr: Seq<u8>) -> Seq<u8> {
    attr + seq![0x3du8, 0x22u8]
}

/// The value of the first `attr="` behind the first `<element` of `xml`.
pub open spec fn attr_value(xml: Seq<u8>, element: Seq<u8>, attr: Seq<u8>) -> Option<Seq<char>> {
    match find(xml, element_opener(element)) {
        None => None,
        Some(p) => span_text(xml, quoted_after(xml, p, attr_opener(attr))),
    }
}

/// The quoted value behind the first `opener` at or after `from`.
fn quoted_value<'a>(xml: &'a str, from: usize, opener: &[u8]) -> (r: Option<&'a str>)
    requires
        opener@.len() > 0,
        opener@.last() < 0x80,
    ensures
        opt_slice_text(r) == span_text(
            xml.spec_bytes(),
            quoted_after(xml.spec_bytes(), from as int, opener@),
        ),
{
    let bytes = xml.as_bytes();
    let p = match find_bytes_from(bytes, opener, from) {
        Some(p) => p,
        None => { return None; },
    };
    proof {
        lemma_find_from(bytes@, opener@, from as int);
        assert(matches_at(bytes@, opener@, p as int));
    }
    let start: usize = p + opener.len();
    let quote: Vec<u8> = vec![0x22u8];
    assert(quote@ =~= self::quote());
    let e = match find_bytes_from(bytes, quote.as_slice(), start) {
        Some(e) => e,
        None => { return None; },
    };
    proof {
        lemma_find_from(bytes@, quote@, start as int);
        encode_utf8_valid_utf8(xml@);
        assert(bytes@[start - 1] == bytes@.subrange(p as int, p + opener@.len())[opener@.len() - 1]);
        lemma_ascii_boundary(bytes@, start - 1);
        assert(bytes@[e as int] == bytes@.subrange(e as int, e + 1)[0]);
        lemma_ascii_boundary(bytes@, e as int);
    }
    Some(substr(xml, start, e))
}

/// Extracts the method name from `<sdk ...><in method="MethodName">`.
pub fn extract_method(xml: &str) -> (r: Option<String>)
    ensures
        opt_text(r) == method_name(xml.spec_bytes()),
{
    let bytes = xml.as_bytes();
    let in_start = match find_bytes(bytes, "<in ".as_bytes()) {
        Some(i) => i,
        None => { return None; },
    };
    let opener = "method=\"".as_bytes();
    proof {
        reveal_strlit("method=\"");
        lemma_ascii_bytes("method=\"");
    }
    match quoted_value(xml, in_start, opener) {
        Some(v) => Some(v.to_owned()),
        None => None,
    }
}

/// Extracts the value of an attribute of an element.
pub fn extract_attr(xml: &str, element: &str, attr: &str) -> (r: Option<String>)
    ensures
        opt_text(r) == attr_value(xml.spec_bytes(), element.spec_bytes(), attr.spec_bytes()),
{
    let bytes = xml.as_bytes();
    let mut tag: Vec<u8> = vec![0x3cu8];
    tag.extend_from_slice(element.as_bytes());
    assert(tag@ =~= element_opener(element.spec_bytes()));
    let pos = match find_bytes(bytes, tag.as_slice()) {
        Some(p) => p,
        None => { return None; },
    };
    let mut search: Vec<u8> = Vec::new();
    search.extend_from_slice(attr.as_bytes());
    search.push(0x3du8);
    search.push(0x22u8);
    assert(search@ =~= attr_opener(attr.spec_bytes()));
    match quoted_value(xml, pos, search.as_slice()) {
        Some(v) => Some(v.to_owned()),
        None => None,
    }
}

/// The offsets at which `tag` opens an element, found from left to right:
/// behind each one the search goes on five bytes further.
pub open spec fn tag_offsets(xml: Seq<u8>, tag: Seq<u8>, from: int) -> Seq<int>
    decreases xml.len() - from + 5,
{
    if from < 0 || from + tag.len() > xml.len() {
        Seq::empty()
    } else if matches_at(xml, tag, from) {
        seq![from] + tag_offsets(xml, tag, from + 5)
    } else {
        tag_offsets(xml, tag, from + 1)
    }
}

/// The offsets from `from` on are the first occurrence and the offsets
/// behind it.
pub proof fn lemma_tag_offsets(xml: Seq<u8>, tag: Seq<u8>, from: int)
    requires
        0 <= from,
    ensures
        tag_offsets(xml, tag, from) == match find_from(xml, tag, from) {
            None => Seq::<int>::empty(),
            Some(p) => seq![p] + tag_offsets(xml, tag, p + 5),
        },
    decreases xml.len() - from + 1,
{
    if from + tag.len() > xml.len() {
    } else if matches_at(xml, tag, from) {
    } else {
        lemma_tag_offsets(xml, tag, from + 1);
    }
}

/// The value of an attribute, or the empty text where there is none.
pub open spec fn attr_or_empty(xml: Seq<u8>, element: Seq<u8>, attr: Seq<u8>) -> Seq<char> {
    match attr_value(xml, element, attr) {
        Some(v) => v,
        None => Seq::empty(),
    }
}

/// The schedule entry that the `<item ` element at offset `p` states: the
/// first `onTime`, `offTime` and `days` values from there on.
pub open spec fn entry_at(xml: Seq<u8>, p: int) -> ScheduleEntryView {
    let rest = xml.subrange(p, xml.len() as int);
    ScheduleEntryView {
        on_time: attr_or_empty(rest, "item".spec_bytes(), "onTime".spec_bytes()),
        off_time: attr_or_empty(rest, "item".spec_bytes(), "offTime".spec_bytes()),
        days: attr_or_empty(rest, "item".spec_bytes(), "days".spec_bytes()),
    }
}

/// The schedule entries at the given offsets.
pub open spec fn entries_at(xml: Seq<u8>, offsets: Seq<int>) -> Seq<ScheduleEntryView> {
    Seq::new(offsets.len(), |i: int| entry_at(xml, offsets[i]))
}

/// The schedule entries that a request states, one for each `<item `.
pub open spec fn schedule_entries(xml: Seq<u8>) -> Seq<ScheduleEntryView> {
    entries_at(xml, tag_offsets(xml, "<item ".spec_bytes(), 0))
}

/// The name that the `<file ` element at offset `p` states, if any.
pub open spec fn file_name_at(xml: Seq<u8>, p: int) -> Option<Seq<char>> {
    attr_value(xml.subrange(p, xml.len() as int), "file".spec_bytes(), "name".spec_bytes())
}

/// The names stated at the given offsets, in order; an element without a
/// name adds none.
pub open spec fn names_at(xml: Seq<u8>, offsets: Seq<int>) -> Seq<Seq<char>>
    decreases offsets.len(),
{
    if offsets.len() == 0 {
        Seq::empty()
    } else {
        names_at(xml, offsets.drop_last()) + match file_name_at(xml, offsets.last()) {
            Some(name) => seq![name],
            None => Seq::empty(),
        }
    }
}

/// The file names that a request states, one for each `<file ` with a name.
pub open spec fn file_names(xml: Seq<u8>) -> Seq<Seq<char>> {
    names_at(xml, tag_offsets(xml, "<file ".spec_bytes(), 0))
}

/// The text from an element's opening bracket to the end.
fn rest_from<'a>(xml: &'a str, p: usize) -> (r: &'a str)
    requires
        p < xml.spec_bytes().len(),
        xml.spec_bytes()[p as int] < 0x80,
    ensures
        r.spec_bytes() == xml.spec_bytes().subrange(p as int, xml.spec_bytes().len() as int),
{
    proof {
        encode_utf8_valid_utf8(xml@);
        lemma_ascii_boundary(xml.spec_bytes(), p as int);
        is_char_boundary_start_end_of_seq(xml.spec_bytes());
    }
    let n: usize = xml.as_bytes().len();
    substr(xml, p, n)
}

/// The value of an attribute, or the empty text where there is none.
fn attr_or_default(xml: &str, element: &str, attr: &str) -> (r: String)
    ensures
        r@ == attr_or_empty(xml.spec_bytes(), element.spec_bytes(), attr.spec_bytes()),
{
    match extract_attr(xml, element, attr) {
        Some(v) => v,
        None => String::new(),
    }
}

/// Extracts the screen schedule entries of a request.
pub fn extract_schedule_entries(xml: &str) -> (entries: Vec<ScreenScheduleEntry>)
    ensures
        entry_views(entries@) == schedule_entries(xml.spec_bytes()),
{
    let bytes = xml.as_bytes();
    let tag = "<item ".as_bytes();
    let mut entries: Vec<ScreenScheduleEntry> = Vec::new();
    let mut search_from: usize = 0;
    let ghost mut done: Seq<int> = Seq::empty();
    proof {
        reveal_strlit("<item ");
        lemma_ascii_bytes("<item ");
        assert(entry_views(entries@) =~= entries_at(bytes@, done));
    }
    loop
        invariant
            bytes@ == xml.spec_bytes(),
            tag@ == "<item ".spec_bytes(),
            tag@.len() == 6,
            tag@[0] < 0x80,
            tag_offsets(bytes@, tag@, 0) == done + tag_offsets(bytes@, tag@, search_from as int),
            entry_views(entries@) == entries_at(bytes@, done),
        ensures
            entry_views(entries@) == schedule_entries(bytes@),
        decreases bytes@.len() + 5 - search_from,
    {
        proof {
            lemma_tag_offsets(bytes@, tag@, search_from as int);
            lemma_find_from(bytes@, tag@, search_from as int);
        }
        let pos = match find_bytes_from(bytes, tag, search_from) {
            Some(p) => p,
            None => {
                assert(done + Seq::<int>::empty() =~= done);
                break ;
            },
        };
        assert(matches_at(bytes@, tag@, pos as int));
        assert(bytes@[pos as int] == bytes@.subrange(pos as int, pos + 6)[0]);
        let rest = rest_from(xml, pos);
        let entry = ScreenScheduleEntry {
            on_time: attr_or_default(rest, "item", "onTime"),
            off_time: attr_or_default(rest, "item", "offTime"),
            days: attr_or_default(rest, "item", "days"),
        };
        let ghost before = entries@;
        entries.push(entry);
        proof {
            let grown = done.push(pos as int);
            assert(entry@ == entry_at(bytes@, pos as int));
            assert(entry_views(before).len() == before.len());
            assert(entries_at(bytes@, done).len() == done.len());
            assert(entries@ == before.push(entry));
            assert forall|i: int| 0 <= i < grown.len() implies entry_views(entries@)[i]
                == entries_at(bytes@, grown)[i] by {
                if i < done.len() {
                    assert(entry_views(before)[i] == entries_at(bytes@, done)[i]);
                    assert(entries@[i] == before[i]);
                }
            }
            assert(entry_views(entries@) =~= entries_at(bytes@, grown));
            assert(grown + tag_offsets(bytes@, tag@, pos + 5) =~= done + (seq![pos as int]
                + tag_offsets(bytes@, tag@, pos + 5)));
            done = grown;
        }
        search_from = pos + 5;
    }
    entries
}

/// Extracts the file names of a request.
pub fn extract_file_list(xml: &str) -> (files: Vec<String>)
    ensures
        files.deep_view() == file_names(xml.spec_bytes()),
{
    let bytes = xml.as_bytes();
    let tag = "<file ".as_bytes();
    let mut files: Vec<String> = Vec::new();
    let mut search_from: usize = 0;
    let ghost mut done: Seq<int> = Seq::empty();
    proof {
        reveal_strlit("<file ");
        lemma_ascii_bytes("<file ");
        assert(files.deep_view() =~= names_at(bytes@, done));
    }
    loop
        invariant
            bytes@ == xml.spec_bytes(),
            tag@ == "<file ".spec_bytes(),
            tag@.len() == 6,
            tag@[0] < 0x80,
            tag_offsets(bytes@, tag@, 0) == done + tag_offsets(bytes@, tag@, search_from as int),
            files.deep_view() == names_at(bytes@, done),
        ensures
            files.deep_view() == file_names(bytes@),
        decreases bytes@.len() + 5 - search_from,
    {
        proof {
            lemma_tag_offsets(bytes@, tag@, search_from as int);
            lemma_find_from(bytes@, tag@, search_from as int);
        }
        let pos = match find_bytes_from(bytes, tag, search_from) {
            Some(p) => p,
            None => {
                assert(done + Seq::<int>::empty() =~= done);
                break ;
            },
        };
        assert(matches_at(bytes@, tag@, pos as int));
        assert(bytes@[pos as int] == bytes@.subrange(pos as int, pos + 6)[0]);
        let rest = rest_from(xml, pos);
        let ghost before = files.deep_view();
        let ghost grown = done.push(pos as int);
        proof {
            assert(grown.drop_last() =~= done);
        }
        match extract_attr(rest, "file", "name") {
            Some(name) => {
                files.push(name);
                assert(files.deep_view() =~= before + seq![name@]);
            },
            None => {
                assert(before + Seq::<Seq<char>>::empty() =~= before);
            },
        }
        proof {
            assert(grown + tag_offsets(bytes@, tag@, pos + 5) =~= done + (seq![pos as int]
                + tag_offsets(bytes@, tag@, pos + 5)));
            done = grown;
        }
        search_from = pos + 5;
    }
    files
}

/// The methods of the SDK command set.
#[derive(Debug, Clone, Copy, PartialEq, Eq, Structural)]
pub enum SdkMethod {
    QueryIfVersion,
    AddProgram,
    UpdateProgram,
    DeleteProgram,
    OpenScreen,
    CloseScreen,
    GetLuminancePloy,
    SetLuminancePloy,
    GetSwitchTime,
    SetSwitchTime,
    GetTimeInfo,
    SetTimeInfo,
    GetDeviceInfo,
    GetAllFontInfo,
    GetEth0Info,
    SetEth0Info,
    GetFiles,
    DeleteFiles,
    GetBootLogo,
    SetBootLogoName,
    ClearBootLogo,
    GetSdkTcpServer,
    SetSdkTcpServer,
    GetWifiInfo,
    SetWifiInfo,
    /// Any other name: answered with success, the name echoed.
    Other,
}

/// A name with its first letter in upper case.
pub open spec fn capitalized(name: Seq<u8>) -> Seq<u8> {
    if name.len() > 0 && 0x61 <= name[0] <= 0x7a {
        seq![(name[0] - 0x20) as u8] + name.drop_first()
    } else {
        name
    }
}

/// The method that a name stands for. The case of the first letter does
/// not matter.
pub open spec fn method_kind(name: Seq<u8>) -> SdkMethod {
    let c = capitalized(name);
    if c == "QueryIFVersion".spec_bytes() || c == "GetIFVersion".spec_bytes() {
        SdkMethod::QueryIfVersion
    } else if c == "AddProgram".spec_bytes() {
        SdkMethod::AddProgram
    } else if c == "UpdateProgram".spec_bytes() {
        SdkMethod::UpdateProgram
    } else if c == "DeleteProgram".spec_bytes() {
        SdkMethod::DeleteProgram
    } else if c == "OpenScreen".spec_bytes() {
        SdkMethod::OpenScreen
    } else if c == "CloseScreen".spec_bytes() {
        SdkMethod::CloseScreen
    } else if c == "GetLuminancePloy".spec_bytes() {
        SdkMethod::GetLuminancePloy
    } else if c == "SetLuminancePloy".spec_bytes() {
        SdkMethod::SetLuminancePloy
    } else if c == "GetSwitchTime".spec_bytes() {
        SdkMethod::GetSwitchTime
    } else if c == "SetSwitchTime".spec_bytes() {
        SdkMethod::SetSwitchTime
    } else if c == "GetTimeInfo".spec_bytes() {
        SdkMethod::GetTimeInfo
    } else if c == "SetTimeInfo".spec_bytes() {
        SdkMethod::SetTimeInfo
    } else if c == "GetDeviceInfo".spec_bytes() {
        SdkMethod::GetDeviceInfo
    } else if c == "GetAllFontInfo".spec_bytes() {
        SdkMethod::GetAllFontInfo
    } else if c == "GetEth0Info".spec_bytes() {
        SdkMethod::GetEth0Info
    } else if c == "SetEth0Info".spec_bytes() {
        SdkMethod::SetEth0Info
    } else if c == "GetFiles".spec_bytes() {
        SdkMethod::GetFiles
    } else if c == "DeleteFiles".spec_bytes() {
        SdkMethod::DeleteFiles
    } else if c == "GetBootLogo".spec_bytes() {
        SdkMethod::GetBootLogo
    } else if c == "SetBootLogoName".spec_bytes() {
        SdkMethod::SetBootLogoName
    } else if c == "ClearBootLogo".spec_bytes() {
        SdkMethod::ClearBootLogo
    } else if c == "GetSDKTcpServer".spec_bytes() {
        SdkMethod::GetSdkTcpServer
    } else if c == "SetSDKTcpServer".spec_bytes() {
        SdkMethod::SetSdkTcpServer
    } else if c == "GetWifiInfo".spec_bytes() {
        SdkMethod::GetWifiInfo
    } else if c == "SetWifiInfo".spec_bytes() {
        SdkMethod::SetWifiInfo
    } else {
        SdkMethod::Other
    }
}

/// Whether a capitalized name is the given one.
fn is_name(capitalized: &Vec<u8>, name: &str) -> (r: bool)
    ensures
        r == (capitalized@ == name.spec_bytes()),
{
    bytes_eq(capitalized.as_slice(), name.as_bytes())
}

/// The method that a name stands for.
pub fn classify_method(name: &str) -> (kind: SdkMethod)
    ensures
        kind == method_kind(name.spec_bytes()),
{
    let bytes = name.as_bytes();
    let n: usize = bytes.len();
    let mut c: Vec<u8> = Vec::new();
    if n > 0 && 0x61 <= bytes[0] && bytes[0] <= 0x7a {
        c.push(bytes[0] - 0x20);
        c.extend_from_slice(slice_subrange(bytes, 1, n));
        assert(c@ =~= capitalized(bytes@));
    } else {
        c.extend_from_slice(bytes);
        assert(c@ =~= capitalized(bytes@));
    }
    if is_name(&c, "QueryIFVersion") || is_name(&c, "GetIFVersion") {
        SdkMethod::QueryIfVersion
    } else if is_name(&c, "AddProgram") {
        SdkMethod::AddProgram
    } else if is_name(&c, "UpdateProgram") {
        SdkMethod::UpdateProgram
    } else if is_name(&c, "DeleteProgram") {
        SdkMethod::DeleteProgram
    } else if is_name(&c, "OpenScreen") {
        SdkMethod::OpenScreen
    } else if is_name(&c, "CloseScreen") {
        SdkMethod::CloseScreen
    } else if is_name(&c, "GetLuminancePloy") {
        SdkMethod::GetLuminancePloy
    } else if is_name(&c, "SetLuminancePloy") {
        SdkMethod::SetLuminancePloy
    } else if is_name(&c, "GetSwitchTime") {
        SdkMethod::GetSwitchTime
    } else if is_name(&c, "SetSwitchTime") {
        SdkMethod::SetSwitchTime
    } else if is_name(&c, "GetTimeInfo") {
        SdkMethod::GetTimeInfo
    } else if is_name(&c, "SetTimeInfo") {
        SdkMethod::SetTimeInfo
    } else if is_name(&c, "GetDeviceInfo") {
        SdkMethod::GetDeviceInfo
    } else if is_name(&c, "GetAllFontInfo") {
        SdkMethod::GetAllFontInfo
    } else if is_name(&c, "GetEth0Info") {
        SdkMethod::GetEth0Info
    } else if is_name(&c, "SetEth0Info") {
        SdkMethod::SetEth0Info
    } else if is_name(&c, "GetFiles") {
        SdkMethod::GetFiles
    } else if is_name(&c, "DeleteFiles") {
        SdkMethod::DeleteFiles
    } else if is_name(&c, "GetBootLogo") {
        SdkMethod::GetBootLogo
    } else if is_name(&c, "SetBootLogoName") {
        SdkMethod::SetBootLogoName
    } else if is_name(&c, "ClearBootLogo") {
        SdkMethod::ClearBootLogo
    } else if is_name(&c, "GetSDKTcpServer") {
        SdkMethod::GetSdkTcpServer
    } else if is_name(&c, "SetSDKTcpServer") {
        SdkMethod::SetSdkTcpServer
    } else if is_name(&c, "GetWifiInfo") {
        SdkMethod::GetWifiInfo
    } else if is_name(&c, "SetWifiInfo") {
        SdkMethod::SetWifiInfo
    } else {
        SdkMethod::Other
    }
}

/// The name of the method in the reply: the canonical name, or, for the
/// boot logo setters and unknown methods, the name as it was sent.
pub open spec fn reply_method(kind: SdkMethod, name: Seq<char>) -> Seq<char> {
    match kind {
        SdkMethod::QueryIfVersion => "QueryIFVersion"@,
        SdkMethod::AddProgram => "AddProgram"@,
        SdkMethod::UpdateProgram => "UpdateProgram"@,
        SdkMethod::DeleteProgram => "DeleteProgram"@,
        SdkMethod::OpenScreen => "OpenScreen"@,
        SdkMethod::CloseScreen => "CloseScreen"@,
        SdkMethod::GetLuminancePloy => "GetLuminancePloy"@,
        SdkMethod::SetLuminancePloy => "SetLuminancePloy"@,
        SdkMethod::GetSwitchTime => "GetSwitchTime"@,
        SdkMethod::SetSwitchTime => "SetSwitchTime"@,
        SdkMethod::GetTimeInfo => "GetTimeInfo"@,
        SdkMethod::SetTimeInfo => "SetTimeInfo"@,
        SdkMethod::GetDeviceInfo => "GetDeviceInfo"@,
        SdkMethod::GetAllFontInfo => "GetAllFontInfo"@,
        SdkMethod::GetEth0Info => "GetEth0Info"@,
        SdkMethod::SetEth0Info => "SetEth0Info"@,
        SdkMethod::GetFiles => "GetFiles"@,
        SdkMethod::DeleteFiles => "DeleteFiles"@,
        SdkMethod::GetBootLogo => "GetBootLogo"@,
        SdkMethod::GetSdkTcpServer => "GetSDKTcpServer"@,
        SdkMethod::SetSdkTcpServer => "SetSDKTcpServer"@,
        SdkMethod::GetWifiInfo => "GetWifiInfo"@,
        SdkMethod::SetWifiInfo => "SetWifiInfo"@,
        SdkMethod::SetBootLogoName | SdkMethod::ClearBootLogo | SdkMethod::Other => name,
    }
}

/// The name of the method in the reply.
fn reply_method_name<'a>(kind: SdkMethod, name: &'a str) -> (r: &'a str)
    ensures
        r@ == reply_method(kind, name@),
{
    match kind {
        SdkMethod::QueryIfVersion => "QueryIFVersion",
        SdkMethod::AddProgram => "AddProgram",
        SdkMethod::UpdateProgram => "UpdateProgram",
        SdkMethod::DeleteProgram => "DeleteProgram",
        SdkMethod::OpenScreen => "OpenScreen",
        SdkMethod::CloseScreen => "CloseScreen",
        SdkMethod::GetLuminancePloy => "GetLuminancePloy",
        SdkMethod::SetLuminancePloy => "SetLuminancePloy",
        SdkMethod::GetSwitchTime => "GetSwitchTime",
        SdkMethod::SetSwitchTime => "SetSwitchTime",
        SdkMethod::GetTimeInfo => "GetTimeInfo",
        SdkMethod::SetTimeInfo => "SetTimeInfo",
        SdkMethod::GetDeviceInfo => "GetDeviceInfo",
        SdkMethod::GetAllFontInfo => "GetAllFontInfo",
        SdkMethod::GetEth0Info => "GetEth0Info",
        SdkMethod::SetEth0Info => "SetEth0Info",
        SdkMethod::GetFiles => "GetFiles",
        SdkMethod::DeleteFiles => "DeleteFiles",
        SdkMethod::GetBootLogo => "GetBootLogo",
        SdkMethod::GetSdkTcpServer => "GetSDKTcpServer",
        SdkMethod::SetSdkTcpServer => "SetSDKTcpServer",
        SdkMethod::GetWifiInfo => "GetWifiInfo",
        SdkMethod::SetWifiInfo => "SetWifiInfo",
        SdkMethod::SetBootLogoName | SdkMethod::ClearBootLogo | SdkMethod::Other => name,
    }
}

/// The reply envelope around a body.
pub open spec fn envelope(guid: Seq<char>, method: Seq<char>, body: Seq<char>) -> Seq<char> {
    "<?xml version=\"1.0\" encoding=\"utf-8\"?><sdk guid=\""@ + guid + "\"><out method=\""@
        + method + "\">"@ + body + "</out></sdk>"@
}

/// The result element of a success.
pub open spec fn ok_result() -> Seq<char> {
    "<result value=\"0\"/>"@
}

/// The body of a failure: the result and the error with its message.
pub open spec fn failure_body(message: Seq<char>) -> Seq<char> {
    "<result value=\"1\"/><error message=\""@ + escaped(message) + "\"/>"@
}

/// The body that reports the brightness.
pub open spec fn luminance_body(level: u8) -> Seq<char> {
    "<luminance mode=\"manual\" value=\""@ + decimal(level as nat) + "\"/>"@ + ok_result()
}

/// The item that reports one entry of the screen schedule.
pub open spec fn switch_item(index: nat, e: ScreenScheduleEntry) -> Seq<char> {
    "<item index=\""@ + decimal(index) + "\" onTime=\""@ + e.on_time@ + "\" offTime=\""@
        + e.off_time@ + "\" days=\""@ + e.days@ + "\"/>"@
}

/// The items that report the screen schedule.
pub open spec fn switch_items(entries: Seq<ScreenScheduleEntry>) -> Seq<char>
    decreases entries.len(),
{
    if entries.len() == 0 {
        Seq::empty()
    } else {
        switch_items(entries.drop_last()) + switch_item(
            (entries.len() - 1) as nat,
            entries.last(),
        )
    }
}

/// The items that report the stored files.
pub open spec fn file_items(files: Seq<String>) -> Seq<char>
    decreases files.len(),
{
    if files.len() == 0 {
        Seq::empty()
    } else {
        file_items(files.drop_last()) + "<file name=\""@ + files.last()@ + "\"/>"@
    }
}

/// The body that reports the local time.
pub open spec fn time_body(stamp: Seq<char>) -> Seq<char> {
    "<time value=\""@ + stamp + "\"/>"@ + ok_result()
}

/// The body that reports the device.
pub open spec fn device_info_body(width: u32, height: u32) -> Seq<char> {
    "<deviceInfo cpu=\"RustPlayer\" model=\"huidu-player\" fpgaVersion=\"1.0.0\" screenWidth=\""@
        + decimal(width as nat) + "\" screenHeight=\""@ + decimal(height as nat)
        + "\" deviceID=\"RUST-001\"/>"@ + ok_result()
}

/// The body that reports the wired network.
pub open spec fn eth0_body(ip: Seq<char>) -> Seq<char> {
    "<eth0 dhcp=\"true\" ip=\""@ + ip + "\" mask=\"255.255.255.0\" gateway=\"\" dns=\"8.8.8.8\"/>"@
        + ok_result()
}

/// The body that reports the command server.
pub open spec fn server_body(port: u16) -> Seq<char> {
    "<server ip=\"\" port=\""@ + decimal(port as nat) + "\" enable=\"true\"/>"@ + ok_result()
}

/// What a command needs to know of the device around it.
pub struct SdkContext {
    /// The local time.
    pub now: WallClock,
    /// The address of the device on the local network.
    pub local_ip: String,
    /// The names of the stored files.
    pub files: Vec<String>,
    /// The screen that the request carries, or why it carries none.
    pub screen: Result<Screen, ParseError>,
    /// The port on which the device takes commands.
    pub listen_port: u16,
}

/// The body of the reply to a command.
pub open spec fn reply_body(
    kind: SdkMethod,
    level: u8,
    schedule: Seq<ScreenScheduleEntry>,
    ctx: SdkContext,
    width: u32,
    height: u32,
) -> Seq<char> {
    match kind {
        SdkMethod::QueryIfVersion => "<version value=\"0x1000000\"/>"@,
        SdkMethod::AddProgram | SdkMethod::UpdateProgram => match ctx.screen {
            Ok(_) => ok_result(),
            Err(e) => failure_body(e.text()),
        },
        SdkMethod::GetLuminancePloy => luminance_body(level),
        SdkMethod::GetSwitchTime => switch_items(schedule) + ok_result(),
        SdkMethod::GetTimeInfo => time_body(ctx.now.text(ClockFormat::Stamp)),
        SdkMethod::GetDeviceInfo => device_info_body(width, height),
        SdkMethod::GetAllFontInfo => "<font name=\"Arial\" index=\"0\"/><font name=\"DejaVu Sans\" index=\"1\"/>"@
            + ok_result(),
        SdkMethod::GetEth0Info => eth0_body(ctx.local_ip@),
        SdkMethod::GetFiles => file_items(ctx.files@) + ok_result(),
        SdkMethod::GetBootLogo => "<bootLogo name=\"\"/>"@ + ok_result(),
        SdkMethod::GetSdkTcpServer => server_body(ctx.listen_port),
        SdkMethod::GetWifiInfo => "<wifi enable=\"false\" ssid=\"\" password=\"\"/>"@
            + ok_result(),
        _ => ok_result(),
    }
}

/// The name of the method of a request, empty where it names none.
pub open spec fn request_method(xml: Seq<u8>) -> Seq<char> {
    match method_name(xml) {
        Some(name) => name,
        None => Seq::empty(),
    }
}

/// The method of a request.
pub open spec fn request_kind(xml: Seq<u8>) -> SdkMethod {
    method_kind(encode_utf8(request_method(xml)))
}

/// The reply to a command.
pub open spec fn sdk_reply(
    xml: Seq<u8>,
    guid: Seq<char>,
    level: u8,
    schedule: Seq<ScreenScheduleEntry>,
    ctx: SdkContext,
    width: u32,
    height: u32,
) -> Seq<char> {
    let kind = request_kind(xml);
    envelope(
        guid,
        reply_method(kind, request_method(xml)),
        reply_body(kind, level, schedule, ctx, width, height),
    )
}

/// The brightness that a request asks for: the `value` of its `luminance`
/// element, where that is a number up to 255.
pub open spec fn requested_level(xml: Seq<u8>) -> Option<u8> {
    match attr_value(xml, "luminance".spec_bytes(), "value".spec_bytes()) {
        Some(v) => match parse_decimal(encode_utf8(v), 255) {
            Some(n) => Some(n as u8),
            None => None,
        },
        None => None,
    }
}

/// What a command asks of the device beyond its own state.
#[derive(Debug)]
pub enum DeviceEffect {
    /// Keep the request as the current program.
    SaveProgram(String),
    /// Remove all stored files.
    ClearStorage,
    /// Remove one stored file.
    DeleteFile(String),
    /// Set the system time.
    SetTime(String),
    /// Send a command to the player.
    Player(PlayerCommand),
}

/// An effect with its texts as character sequences.
pub enum EffectView {
    SaveProgram(Seq<char>),
    ClearStorage,
    DeleteFile(Seq<char>),
    SetTime(Seq<char>),
    Player(CommandView),
}

impl View for DeviceEffect {
    type V = EffectView;

    open spec fn view(&self) -> EffectView {
        match *self {
            DeviceEffect::SaveProgram(xml) => EffectView::SaveProgram(xml@),
            DeviceEffect::ClearStorage => EffectView::ClearStorage,
            DeviceEffect::DeleteFile(name) => EffectView::DeleteFile(name@),
            DeviceEffect::SetTime(time) => EffectView::SetTime(time@),
            DeviceEffect::Player(command) => EffectView::Player(command@),
        }
    }
}

/// Effects with their texts as character sequences.
pub open spec fn effect_views(effects: Seq<DeviceEffect>) -> Seq<EffectView> {
    Seq::new(effects.len(), |i: int| effects[i]@)
}

/// The removal of each of the named files, in order.
pub open spec fn deletions(names: Seq<Seq<char>>) -> Seq<EffectView> {
    Seq::new(names.len(), |i: int| EffectView::DeleteFile(names[i]))
}

/// What a command asks of the device beyond its own state.
pub open spec fn sdk_effects(xml: Seq<char>, screen: Result<Screen, ParseError>) -> Seq<
    EffectView,
> {
    let bytes = encode_utf8(xml);
    match request_kind(bytes) {
        SdkMethod::AddProgram | SdkMethod::UpdateProgram => match screen {
            Ok(s) => seq![
                EffectView::SaveProgram(xml),
                EffectView::Player(
                    CommandView::LoadScreen { timestamps: s.timestamps@, programs: s.programs@ },
                ),
            ],
            Err(_) => Seq::empty(),
        },
        SdkMethod::DeleteProgram => seq![
            EffectView::ClearStorage,
            EffectView::Player(
                CommandView::LoadScreen { timestamps: Seq::empty(), programs: Seq::empty() },
            ),
        ],
        SdkMethod::OpenScreen => seq![EffectView::Player(CommandView::ScreenPower(true))],
        SdkMethod::CloseScreen => seq![EffectView::Player(CommandView::ScreenPower(false))],
        SdkMethod::SetLuminancePloy => match requested_level(bytes) {
            Some(level) => seq![EffectView::Player(CommandView::SetBrightness(level))],
            None => Seq::empty(),
        },
        SdkMethod::SetTimeInfo => match attr_value(
            bytes,
            "time".spec_bytes(),
            "value".spec_bytes(),
        ) {
            Some(time) => seq![EffectView::SetTime(time)],
            None => Seq::empty(),
        },
        SdkMethod::DeleteFiles => deletions(file_names(bytes)),
        _ => Seq::empty(),
    }
}

/// The brightness after a command.
pub open spec fn level_after(xml: Seq<u8>, level: u8) -> u8 {
    if request_kind(xml) == SdkMethod::SetLuminancePloy {
        match requested_level(xml) {
            Some(asked) => clamp_level(asked),
            None => level,
        }
    } else {
        level
    }
}

/// The reply to a command and what it asks of the device.
#[derive(Debug)]
pub struct SdkOutcome {
    pub reply: String,
    pub effects: Vec<DeviceEffect>,
}

/// Wraps a body in the reply envelope.
fn wrap_reply(guid: &str, method: &str, body: &str) -> (r: String)
    ensures
        r@ == envelope(guid@, method@, body@),
{
    let mut r = "<?xml version=\"1.0\" encoding=\"utf-8\"?><sdk guid=\"".to_owned();
    r.append(guid);
    r.append("\"><out method=\"");
    r.append(method);
    r.append("\">");
    r.append(body);
    r.append("</out></sdk>");
    r
}

/// The items that report the screen schedule.
fn push_switch_items(body: &mut String, entries: &[ScreenScheduleEntry])
    ensures
        final(body)@ == old(body)@ + switch_items(entries@),
{
    let n: usize = entries.len();
    let mut i: usize = 0;
    assert(body@ =~= old(body)@ + switch_items(entries@.take(0)));
    while i < n
        invariant
            i <= n,
            n == entries@.len(),
            body@ == old(body)@ + switch_items(entries@.take(i as int)),
        decreases n - i,
    {
        let ghost before = body@;
        let entry = &entries[i];
        body.append("<item index=\"");
        push_decimal(body, i as u64);
        body.append("\" onTime=\"");
        body.append(entry.on_time.as_str());
        body.append("\" offTime=\"");
        body.append(entry.off_time.as_str());
        body.append("\" days=\"");
        body.append(entry.days.as_str());
        body.append("\"/>");
        proof {
            assert(entries@.take(i + 1).drop_last() =~= entries@.take(i as int));
            assert(entries@.take(i + 1).last() == entries@[i as int]);
            assert(body@ =~= before + switch_item(i as nat, entries@[i as int]));
            assert(body@ =~= old(body)@ + switch_items(entries@.take(i + 1)));
        }
        i += 1;
    }
    assert(entries@.take(n as int) =~= entries@);
}

/// The items that report the stored files.
fn push_file_items(body: &mut String, files: &Vec<String>)
    ensures
        final(body)@ == old(body)@ + file_items(files@),
{
    let n: usize = files.len();
    let mut i: usize = 0;
    assert(body@ =~= old(body)@ + file_items(files@.take(0)));
    while i < n
        invariant
            i <= n,
            n == files@.len(),
            body@ == old(body)@ + file_items(files@.take(i as int)),
        decreases n - i,
    {
        let ghost before = body@;
        body.append("<file name=\"");
        body.append(files[i].as_str());
        body.append("\"/>");
        proof {
            assert(files@.take(i + 1).drop_last() =~= files@.take(i as int));
            assert(files@.take(i + 1).last() == files@[i as int]);
            assert(body@ =~= before + "<file name=\""@ + files@[i as int]@ + "\"/>"@);
            assert(body@ =~= old(body)@ + file_items(files@.take(i + 1)));
        }
        i += 1;
    }
    assert(files@.take(n as int) =~= files@);
}

/// The brightness that a request asks for.
fn requested_brightness(xml: &str) -> (r: Option<u8>)
    ensures
        r == requested_level(xml.spec_bytes()),
{
    match extract_attr(xml, "luminance", "value") {
        Some(v) => match parse_number(v.as_str().as_bytes(), 255) {
            Some(n) => Some(n as u8),
            None => None,
        },
        None => None,
    }
}

/// The removal of each of the named files, in order.
fn push_deletions(effects: &mut Vec<DeviceEffect>, names: Vec<String>)
    requires
        old(effects)@.len() == 0,
    ensures
        effect_views(final(effects)@) == deletions(names.deep_view()),
{
    let mut names = names;
    let ghost all = names.deep_view();
    let n: usize = names.len();
    let mut rest: Vec<String> = Vec::new();
    let mut i: usize = 0;
    while i < n
        invariant
            i <= n,
            names@.len() == n - i,
            effects@.len() == i,
            all.len() == n,
            forall|j: int| 0 <= j < i ==> (#[trigger] effects@[j])@ == EffectView::DeleteFile(all[j]),
            forall|j: int| 0 <= j < n - i ==> (#[trigger] names@[j])@ == all[i + j],
        decreases n - i,
    {
        let name = names.remove(0);
        effects.push(DeviceEffect::DeleteFile(name));
        i += 1;
    }
    assert(effect_views(effects@) =~= deletions(all));
}

/// Builds the body of the reply to a command.
fn build_body(
    kind: SdkMethod,
    level: u8,
    schedule: &[ScreenScheduleEntry],
    ctx: &SdkContext,
    screen_width: u32,
    screen_height: u32,
) -> (body: String)
    requires
        ctx.now.valid(),
    ensures
        body@ == reply_body(kind, level, schedule@, *ctx, screen_width, screen_height),
{
    match kind {
        SdkMethod::QueryIfVersion => "<version value=\"0x1000000\"/>".to_owned(),
        SdkMethod::AddProgram | SdkMethod::UpdateProgram => match &ctx.screen {
            Ok(_) => "<result value=\"0\"/>".to_owned(),
            Err(e) => {
                let message = e.message();
                let mut body = "<result value=\"1\"/><error message=\"".to_owned();
                push_escaped(&mut body, message.as_str());
                body.append("\"/>");
                body
            },
        },
        SdkMethod::GetLuminancePloy => {
            let mut body = "<luminance mode=\"manual\" value=\"".to_owned();
            push_decimal(&mut body, level as u64);
            body.append("\"/>");
            body.append("<result value=\"0\"/>");
            body
        },
        SdkMethod::GetSwitchTime => {
            let mut body = String::new();
            push_switch_items(&mut body, schedule);
            body.append("<result value=\"0\"/>");
            assert(body@ =~= switch_items(schedule@) + ok_result());
            body
        },
        SdkMethod::GetTimeInfo => {
            let stamp = ctx.now.format(ClockFormat::Stamp);
            let mut body = "<time value=\"".to_owned();
            body.append(stamp.as_str());
            body.append("\"/>");
            body.append("<result value=\"0\"/>");
            body
        },
        SdkMethod::GetDeviceInfo => {
            let mut body =
                "<deviceInfo cpu=\"RustPlayer\" model=\"huidu-player\" fpgaVersion=\"1.0.0\" screenWidth=\"".to_owned();
            push_decimal(&mut body, screen_width as u64);
            body.append("\" screenHeight=\"");
            push_decimal(&mut body, screen_height as u64);
            body.append("\" deviceID=\"RUST-001\"/>");
            body.append("<result value=\"0\"/>");
            body
        },
        SdkMethod::GetAllFontInfo => {
            let mut body =
                "<font name=\"Arial\" index=\"0\"/><font name=\"DejaVu Sans\" index=\"1\"/>".to_owned();
            body.append("<result value=\"0\"/>");
            body
        },
        SdkMethod::GetEth0Info => {
            let mut body = "<eth0 dhcp=\"true\" ip=\"".to_owned();
            body.append(ctx.local_ip.as_str());
            body.append("\" mask=\"255.255.255.0\" gateway=\"\" dns=\"8.8.8.8\"/>");
            body.append("<result value=\"0\"/>");
            body
        },
        SdkMethod::GetFiles => {
            let mut body = String::new();
            push_file_items(&mut body, &ctx.files);
            body.append("<result value=\"0\"/>");
            assert(body@ =~= file_items(ctx.files@) + ok_result());
            body
        },
        SdkMethod::GetBootLogo => {
            let mut body = "<bootLogo name=\"\"/>".to_owned();
            body.append("<result value=\"0\"/>");
            body
        },
        SdkMethod::GetSdkTcpServer => {
            let mut body = "<server ip=\"\" port=\"".to_owned();
            push_decimal(&mut body, ctx.listen_port as u64);
            body.append("\" enable=\"true\"/>");
            body.append("<result value=\"0\"/>");
            body
        },
        SdkMethod::GetWifiInfo => {
            let mut body = "<wifi enable=\"false\" ssid=\"\" password=\"\"/>".to_owned();
            body.append("<result value=\"0\"/>");
            body
        },
        _ => "<result value=\"0\"/>".to_owned(),
    }
}

/// Handles an SDK command: answers it, changes the device state it is
/// about, and says what else is to be done.
///
/// The state of the services changes only through `SetLuminancePloy`, which
/// sets the brightness, and `SetSwitchTime`, which replaces the screen
/// schedule. Everything outside the services comes back as effects, in the
/// order in which they are to happen.
pub fn handle_sdk_command(
    xml: &str,
    session: &Session,
    services: &mut ServicesState,
    ctx: SdkContext,
    screen_width: u32,
    screen_height: u32,
) -> (out: SdkOutcome)
    requires
        ctx.now.valid(),
    ensures
        out.reply@ == sdk_reply(
            xml.spec_bytes(),
            session.id(),
            old(services).brightness.level(),
            old(services).screen_schedule.entries(),
            ctx,
            screen_width,
            screen_height,
        ),
        effect_views(out.effects@) == sdk_effects(xml@, ctx.screen),
        final(services).brightness.level() == level_after(
            xml.spec_bytes(),
            old(services).brightness.level(),
        ),
        final(services).brightness.entries() == old(services).brightness.entries(),
        final(services).storage == old(services).storage,
        request_kind(xml.spec_bytes()) == SdkMethod::SetSwitchTime ==> entry_views(
            final(services).screen_schedule.entries(),
        ) == schedule_entries(xml.spec_bytes()) && final(services).screen_schedule.last_state()
            is None,
        request_kind(xml.spec_bytes()) != SdkMethod::SetSwitchTime ==> final(services).screen_schedule
            == old(services).screen_schedule,
{
    let method = match extract_method(xml) {
        Some(m) => m,
        None => String::new(),
    };
    let kind = classify_method(method.as_str());
    let level = services.brightness.get_level();
    let body = build_body(
        kind,
        level,
        services.screen_schedule.get_schedule(),
        &ctx,
        screen_width,
        screen_height,
    );
    let reply = wrap_reply(session.guid(), reply_method_name(kind, method.as_str()), body.as_str());
    let mut effects: Vec<DeviceEffect> = Vec::new();
    match kind {
        SdkMethod::AddProgram | SdkMethod::UpdateProgram => {
            match ctx.screen {
                Ok(screen) => {
                    effects.push(DeviceEffect::SaveProgram(xml.to_owned()));
                    effects.push(DeviceEffect::Player(PlayerCommand::LoadScreen(screen)));
                },
                Err(_) => {},
            }
        },
        SdkMethod::DeleteProgram => {
            effects.push(DeviceEffect::ClearStorage);
            effects.push(
                DeviceEffect::Player(
                    PlayerCommand::LoadScreen(
                        Screen { timestamps: String::new(), programs: Vec::new() },
                    ),
                ),
            );
        },
        SdkMethod::OpenScreen => {
            effects.push(DeviceEffect::Player(PlayerCommand::ScreenPower(true)));
        },
        SdkMethod::CloseScreen => {
            effects.push(DeviceEffect::Player(PlayerCommand::ScreenPower(false)));
        },
        SdkMethod::SetLuminancePloy => {
            match requested_brightness(xml) {
                Some(asked) => {
                    services.brightness.set_level(asked);
                    effects.push(DeviceEffect::Player(PlayerCommand::SetBrightness(asked)));
                },
                None => {},
            }
        },
        SdkMethod::SetSwitchTime => {
            let entries = extract_schedule_entries(xml);
            services.screen_schedule.set_schedule(entries);
        },
        SdkMethod::SetTimeInfo => {
            match extract_attr(xml, "time", "value") {
                Some(time) => {
                    effects.push(DeviceEffect::SetTime(time));
                },
                None => {},
            }
        },
        SdkMethod::DeleteFiles => {
            let names = extract_file_list(xml);
            push_deletions(&mut effects, names);
        },
        _ => {},
    }
    proof {
        assert(effect_views(effects@) =~= sdk_effects(xml@, ctx.screen));
    }
    SdkOutcome { reply, effects }
}

/// The names of the stored files after an effect.
pub open spec fn stored_after(files: Set<Seq<char>>, effect: EffectView) -> Set<Seq<char>> {
    match effect {
        EffectView::SaveProgram(_) => files.insert(StorageService::program_file()),
        EffectView::ClearStorage => Set::empty(),
        EffectView::DeleteFile(name) => files.remove(name),
        _ => files,
    }
}

/// The names of the stored files after effects, in order.
pub open spec fn stored_after_all(files: Set<Seq<char>>, effects: Seq<EffectView>) -> Set<
    Seq<char>,
>
    decreases effects.len(),
{
    if effects.len() == 0 {
        files
    } else {
        stored_after(stored_after_all(files, effects.drop_last()), effects.last())
    }
}

/// The player after the commands among effects, in order, all arriving at
/// one frame.
pub open spec fn played_after_all(v: PlayerView, effects: Seq<EffectView>, frame: u64) -> PlayerView
    decreases effects.len(),
{
    if effects.len() == 0 {
        v
    } else {
        let before = played_after_all(v, effects.drop_last(), frame);
        match effects.last() {
            EffectView::Player(command) => commanded(before, command, frame),
            _ => before,
        }
    }
}

/// Adding a program and then deleting it: the brightness is what it was, no
/// file is stored and no program is loaded, the cursor is at the start, and
/// screen power is what it was. A device that held neither files nor
/// programs before is back in the state it was in.
pub proof fn lemma_add_then_delete(
    add: Seq<char>,
    delete: Seq<char>,
    added: Result<Screen, ParseError>,
    deleted: Result<Screen, ParseError>,
    level: u8,
    files: Set<Seq<char>>,
    player: PlayerView,
    added_at: u64,
    deleted_at: u64,
)
    requires
        request_kind(encode_utf8(add)) == SdkMethod::AddProgram,
        request_kind(encode_utf8(delete)) == SdkMethod::DeleteProgram,
    ensures
        level_after(encode_utf8(delete), level_after(encode_utf8(add), level)) == level,
        stored_after_all(
            stored_after_all(files, sdk_effects(add, added)),
            sdk_effects(delete, deleted),
        ) == Set::<Seq<char>>::empty(),
        ({
            let after = played_after_all(
                played_after_all(player, sdk_effects(add, added), added_at),
                sdk_effects(delete, deleted),
                deleted_at,
            );
            &&& after.programs == Seq::<Program>::empty()
            &&& after.current == 0
            &&& after.screen_on == player.screen_on
            &&& after.level == player.level
        }),
{
    let first = sdk_effects(add, added);
    let second = sdk_effects(delete, deleted);
    assert(second.len() == 2);
    assert(second.drop_last().len() == 1);
    assert(second.drop_last().drop_last().len() == 0);
    assert(second.last() == second[1]);
    assert(second.drop_last().last() == second[0]);
    let between = played_after_all(player, first, added_at);
    reveal_with_fuel(stored_after_all, 3);
    reveal_with_fuel(played_after_all, 3);
    assert(between.screen_on == player.screen_on && between.level == player.level) by {
        match added {
            Ok(s) => {
                assert(first.len() == 2);
                assert(first.drop_last().len() == 1);
                assert(first.drop_last().drop_last().len() == 0);
                assert(first.last() == first[1]);
                assert(first.drop_last().last() == first[0]);
            },
            Err(_) => {
                assert(first.len() == 0);
            },
        }
    }
}

} // verus!
