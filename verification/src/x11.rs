//! What an X11 capture reports, and what it says about the sample.

use vstd::prelude::*;
use vstd::string::{StrSliceExecFns, StringExecFns};
use byteorder::{ByteOrder, LittleEndian};
use crate::classify::{
    device_kind, device_type, idle_after, is_idle, ExtractedInfo, GeneralSoftware, Identifier,
    SpecificSoftware,
};
use crate::software::{class_view, match_software, software_tags};
use crate::tags::tags_view;
use crate::text::{same_text, split, split_chars, texts, to_chars};

verus! {

/// The options of the X11 capture. It takes the default screen and has none.
#[derive(Clone, Copy, Debug, Default, PartialEq, Eq)]
pub struct X11CaptureArgs {}

/// Where a window lies on the screen.
#[derive(Clone, Copy, Debug, PartialEq, Eq)]
pub struct X11WindowGeometry {
    pub x: i32,
    pub y: i32,
    pub width: i32,
    pub height: i32,
}

/// The operating system and the machine.
#[derive(Clone, Debug, PartialEq, Eq)]
pub struct OsInfo {
    pub os_type: String,
    pub version: String,
    pub batteries: Option<i32>,
    pub hostname: String,
}

/// The value of a window property.
#[derive(Clone, Debug, PartialEq, Eq)]
pub enum PropertyValue {
    /// A property of type `STRING` or `UTF8_STRING`.
    Text(String),
    /// A property of type `ATOM`: the names of its atoms.
    Atoms { kind: String, names: Vec<String> },
    /// A property of 32-bit numbers: cardinals and windows.
    Numbers { kind: String, values: Vec<u32> },
    /// Any other property: its bytes as hexadecimal digits.
    Bytes { kind: String, hex: String },
}

/// A property of a window.
#[derive(Clone, Debug, PartialEq, Eq)]
pub struct WindowProperty {
    pub name: String,
    pub value: PropertyValue,
}

/// A process, as the X11 capture reports it. `start_time` counts seconds
/// since the start of 1970; `cpu_usage` holds the bit pattern of a 32-bit
/// float.
#[derive(Clone, Debug, PartialEq, Eq)]
pub struct ProcessData {
    pub pid: i32,
    pub name: String,
    pub cmd: Vec<String>,
    pub exe: String,
    pub cwd: String,
    pub memory_kB: i64,
    pub parent: Option<i32>,
    pub status: String,
    pub start_time: u64,
    pub cpu_usage: u32,
}

/// A window, as the X11 capture reports it.
#[derive(Clone, Debug, PartialEq, Eq)]
pub struct X11WindowData {
    pub window_id: u32,
    pub geometry: X11WindowGeometry,
    pub process: Option<ProcessData>,
    pub window_properties: Vec<WindowProperty>,
}

/// One sample of the X11 capture.
#[derive(Clone, Debug, PartialEq, Eq)]
pub struct X11EventData {
    pub os_info: OsInfo,
    pub desktop_names: Vec<String>,
    pub current_desktop_id: usize,
    pub focused_window: u32,
    pub ms_since_user_input: u32,
    pub ms_until_screensaver: u32,
    pub screensaver_window: u32,
    pub windows: Vec<X11WindowData>,
}

/// The number that four bytes hold, the lowest byte first.
pub open spec fn le_u32(b0: u8, b1: u8, b2: u8, b3: u8) -> u32 {
    (b0 + b1 * 0x100 + b2 * 0x1_0000 + b3 * 0x100_0000) as u32
}

/// The numbers that `bytes` hold, four bytes each, the lowest byte first.
pub open spec fn words(bytes: Seq<u8>) -> Seq<u32> {
    Seq::new(
        (bytes.len() / 4) as nat,
        |i: int| le_u32(bytes[4 * i], bytes[4 * i + 1], bytes[4 * i + 2], bytes[4 * i + 3]),
    )
}

/// `byteorder::LittleEndian::read_u32` on the bytes from `at` on: the number
/// that the first four of them hold, the lowest byte first.
#[verifier::external_body]
fn read_u32_le(bytes: &Vec<u8>, at: usize) -> (word: u32)
    requires
        at + 4 <= bytes.len(),
    ensures
        word == le_u32(bytes[at as int], bytes[at + 1], bytes[at + 2], bytes[at + 3]),
{
    LittleEndian::read_u32(&bytes[at..])
}

/// The 32-bit numbers that a property value holds.
pub fn to_u32s(v1: &Vec<u8>) -> (v2: Vec<u32>)
    requires
        v1.len() % 4 == 0,
    ensures
        v2@ == words(v1@),
{
    let mut v2: Vec<u32> = Vec::new();
    let mut at: usize = 0;
    while at < v1.len()
        invariant
            at <= v1.len(),
            at % 4 == 0,
            v1.len() % 4 == 0,
            v2.len() == at / 4,
            forall|i: int| 0 <= i < v2.len() ==> #[trigger] v2[i] == words(v1@)[i],
        decreases v1.len() - at,
    {
        let word = read_u32_le(v1, at);
        v2.push(word);
        at += 4;
    }
    v2
}

/// The one item of `v`.
pub fn single<T: Copy>(v: &Vec<T>) -> (item: T)
    requires
        v.len() == 1,
    ensures
        item == v[0],
{
    v[0]
}

/// The texts of a list in which each text is followed by a zero character.
pub fn split_zero(s: &str) -> (parts: Vec<String>)
    requires
        split(s@, '\0').last().len() == 0,
    ensures
        texts(parts@) == split(s@, '\0').drop_last(),
{
    let chars = to_chars(s);
    let mut parts = split_chars(&chars, '\0');
    parts.pop();
    parts
}

/// The texts of a zero-terminated list, where `s` is one.
pub fn try_split_zero(s: &str) -> (parts: Option<Vec<String>>)
    ensures
        match parts {
            Some(parts) => split(s@, '\0').last().len() == 0 && texts(parts@) == split(s@, '\0')
                .drop_last(),
            None => split(s@, '\0').last().len() != 0,
        },
{
    let chars = to_chars(s);
    let mut parts = split_chars(&chars, '\0');
    let last = parts.pop().unwrap();
    if last.as_str().unicode_len() == 0 {
        Some(parts)
    } else {
        None
    }
}

/// The place of the first property called `name` at or after `from`;
/// `properties.len()` if there is none.
pub open spec fn property_at(properties: Seq<WindowProperty>, name: Seq<char>, from: int) -> int
    decreases properties.len() - from,
{
    if from < 0 || from >= properties.len() {
        properties.len() as int
    } else if properties[from].name@ == name {
        from
    } else {
        property_at(properties, name, from + 1)
    }
}

/// The text of the property called `name`, where the window has one and it
/// is a text.
pub open spec fn text_property(properties: Seq<WindowProperty>, name: Seq<char>) -> Option<Seq<char>> {
    let at = property_at(properties, name, 0);
    if at < properties.len() {
        match properties[at].value {
            PropertyValue::Text(text) => Some(text@),
            _ => None,
        }
    } else {
        None
    }
}

/// The class of a window from its `WM_CLASS` text: the first two texts of a
/// zero-terminated list, the instance and the class.
pub open spec fn class_of(text: Seq<char>) -> Option<(Seq<char>, Seq<char>)> {
    let parts = split(text, '\0');
    if parts.last().len() == 0 && parts.len() >= 3 {
        Some((parts[0], parts[1]))
    } else {
        None
    }
}

/// The class of a window, where its properties give one.
pub open spec fn window_class(properties: Seq<WindowProperty>) -> Option<(Seq<char>, Seq<char>)> {
    match text_property(properties, "WM_CLASS"@) {
        Some(text) => class_of(text),
        None => None,
    }
}

impl X11WindowData {
    /// The text of the property called `name`.
    fn text_of(&self, name: &str) -> (text: Option<&str>)
        ensures
            match text {
                Some(text) => text_property(self.window_properties@, name@) == Some(text@),
                None => text_property(self.window_properties@, name@) is None,
            },
    {
        let mut i: usize = 0;
        while i < self.window_properties.len() && !same_text(
            self.window_properties[i].name.as_str(),
            name,
        )
            invariant
                i <= self.window_properties.len(),
                property_at(self.window_properties@, name@, 0) == property_at(
                    self.window_properties@,
                    name@,
                    i as int,
                ),
            decreases self.window_properties.len() - i,
        {
            i += 1;
        }
        if i < self.window_properties.len() {
            match &self.window_properties[i].value {
                PropertyValue::Text(text) => Some(text.as_str()),
                _ => None,
            }
        } else {
            None
        }
    }

    /// The title of the window: its property `_NET_WM_NAME`, where that is a
    /// text.
    pub fn get_title(&self) -> (title: Option<String>)
        ensures
            match title {
                Some(title) => text_property(self.window_properties@, "_NET_WM_NAME"@) == Some(
                    title@,
                ),
                None => text_property(self.window_properties@, "_NET_WM_NAME"@) is None,
            },
    {
        match self.text_of("_NET_WM_NAME") {
            Some(title) => Some(String::from_str(title)),
            None => None,
        }
    }

    /// The class of the window: the instance and the class that its property
    /// `WM_CLASS` lists.
    pub fn get_class(&self) -> (class: Option<(String, String)>)
        ensures
            class_view(class) == window_class(self.window_properties@),
    {
        let text = match self.text_of("WM_CLASS") {
            Some(text) => text,
            None => {
                return None;
            },
        };
        let parts = match try_split_zero(text) {
            Some(parts) => parts,
            None => {
                return None;
            },
        };
        assert(texts(parts@).len() == parts.len());
        if parts.len() < 2 {
            return None;
        }
        let instance = parts[0].clone();
        let class = parts[1].clone();
        assert(texts(parts@)[0] == instance@ && texts(parts@)[1] == class@);
        Some((instance, class))
    }
}

/// The place of the first window with the id `id` at or after `from`;
/// `windows.len()` if there is none.
pub open spec fn window_at(windows: Seq<X11WindowData>, id: u32, from: int) -> int
    decreases windows.len() - from,
{
    if from < 0 || from >= windows.len() {
        windows.len() as int
    } else if windows[from].window_id == id {
        from
    } else {
        window_at(windows, id, from + 1)
    }
}

/// The path of the executable of a window's process.
pub open spec fn executable_of(window: X11WindowData) -> Option<Seq<char>> {
    match window.process {
        Some(process) => Some(process.exe@),
        None => None,
    }
}

/// The tags of the software in focus: those of the title, the class and the
/// executable of the first window with the id `focused`. `None` where there
/// is no such window, or it has no title.
pub open spec fn focused_tags(windows: Seq<X11WindowData>, focused: u32) -> Option<
    Seq<(Seq<char>, Seq<char>)>,
> {
    let at = window_at(windows, focused, 0);
    if at < windows.len() {
        match text_property(windows[at].window_properties@, "_NET_WM_NAME"@) {
            Some(title) => Some(
                software_tags(
                    title,
                    window_class(windows[at].window_properties@),
                    executable_of(windows[at]),
                    None,
                    None,
                ),
            ),
            None => None,
        }
    } else {
        None
    }
}

/// Whether `specific` is what `tags` say of the software in focus.
pub open spec fn describes(specific: SpecificSoftware, tags: Option<Seq<(Seq<char>, Seq<char>)>>) -> bool {
    match specific {
        SpecificSoftware::Unknown => tags is None,
        SpecificSoftware::Tagged { tags: found } => tags == Some(tags_view(found@)),
    }
}

impl X11EventData {
    /// The place of the window in focus.
    fn focused_at(&self) -> (at: usize)
        ensures
            at == window_at(self.windows@, self.focused_window, 0),
            at <= self.windows.len(),
    {
        let mut i: usize = 0;
        while i < self.windows.len() && self.windows[i].window_id != self.focused_window
            invariant
                i <= self.windows.len(),
                window_at(self.windows@, self.focused_window, 0) == window_at(
                    self.windows@,
                    self.focused_window,
                    i as int,
                ),
            decreases self.windows.len() - i,
        {
            i += 1;
        }
        i
    }

    /// The classification of the sample. An idle sample has none. Any other
    /// names the host, the kind of device and the operating system, and
    /// carries the tags of the window in focus where that has a title.
    pub fn extract_info(&self) -> (info: Option<ExtractedInfo>)
        ensures
            match info {
                None => idle_after((self.ms_since_user_input * 1_000_000) as u128),
                Some(ExtractedInfo::UseDevice { general, specific }) => {
                    &&& !idle_after((self.ms_since_user_input * 1_000_000) as u128)
                    &&& general.hostname@ == self.os_info.hostname@
                    &&& general.device_type == device_kind(self.os_info.batteries)
                    &&& general.device_os@ == self.os_info.os_type@
                    &&& general.title@.len() == 0
                    &&& general.identifier.0@.len() == 0
                    &&& general.unique_name@.len() == 0
                    &&& describes(specific, focused_tags(self.windows@, self.focused_window))
                },
            },
    {
        let ms: u128 = self.ms_since_user_input as u128;
        if is_idle(ms * 1_000_000) {
            return None;
        }
        let general = GeneralSoftware {
            hostname: self.os_info.hostname.clone(),
            device_type: device_type(self.os_info.batteries),
            device_os: self.os_info.os_type.clone(),
            identifier: Identifier(String::new()),
            title: String::new(),
            unique_name: String::new(),
        };
        let at = self.focused_at();
        let specific = if at < self.windows.len() {
            let window = &self.windows[at];
            match window.get_title() {
                Some(title) => {
                    let class = window.get_class();
                    let executable = match &window.process {
                        Some(process) => Some(process.exe.as_str()),
                        None => None,
                    };
                    SpecificSoftware::Tagged {
                        tags: match_software(title.as_str(), &class, executable, None, None),
                    }
                },
                None => SpecificSoftware::Unknown,
            }
        } else {
            SpecificSoftware::Unknown
        };
        Some(ExtractedInfo::UseDevice { general, specific })
    }
}

} // verus!
