//! Device families, the strategies that classify a device, and the record
//! kept for each tracked device.

use vstd::prelude::*;
use vstd::string::*;
use crate::entry::{EntryView, TyCmdListEntry};
use crate::text::{clone_texts, contains, has_infix, same_text, same_texts};

verus! {

/// The coarse device family derived from a descriptor.
#[derive(Debug, Clone, Copy, PartialEq, Eq, Structural)]
pub enum DeviceType {
    HEADLESS,
    MODEL01,
    MODEL02,
    UNKNOWN,
}

/// The family that a reported model text stands for.
pub open spec fn model_family(model: Seq<char>) -> DeviceType {
    if model == "Teensy MicroMod"@ {
        DeviceType::MODEL02
    } else if model == "Teensy 4.0"@ {
        DeviceType::MODEL01
    } else if model == "Teensy 4.1"@ {
        DeviceType::HEADLESS
    } else {
        DeviceType::UNKNOWN
    }
}

/// Whether a description is one of the two known bootloader or runtime
/// identifiers.
pub open spec fn known_description(description: Seq<char>) -> bool {
    description == "M8"@ || description == "HalfKay"@
}

/// The family of a device with the given description and model: that of the
/// model where the description is known, and unknown otherwise.
pub open spec fn classify(description: Seq<char>, model: Seq<char>) -> DeviceType {
    if known_description(description) {
        model_family(model)
    } else {
        DeviceType::UNKNOWN
    }
}

/// The family that a free text, such as a serial console banner, points to.
pub open spec fn banner_family(text: Seq<char>) -> DeviceType {
    if has_infix(text, "M8"@) {
        DeviceType::MODEL01
    } else if has_infix(text, "HalfKay"@) {
        DeviceType::MODEL02
    } else {
        DeviceType::UNKNOWN
    }
}

/// Whether devices of this family are kept in the registry.
pub open spec fn is_retainable(family: DeviceType) -> bool {
    family == DeviceType::MODEL01 || family == DeviceType::MODEL02
}

/// The name of a family, as it appears in firmware file names.
pub open spec fn family_name(family: DeviceType) -> Seq<char> {
    match family {
        DeviceType::HEADLESS => "HEADLESS"@,
        DeviceType::MODEL01 => "MODEL01"@,
        DeviceType::MODEL02 => "MODEL02"@,
        DeviceType::UNKNOWN => "UNKNOWN"@,
    }
}

/// Classifies a descriptor from its description and model.
pub fn determine_device_type(info: &TyCmdListEntry) -> (family: DeviceType)
    ensures
        family == classify(info@.description, info@.model),
{
    if !same_text(info.description.as_str(), "M8") && !same_text(
        info.description.as_str(),
        "HalfKay",
    ) {
        return DeviceType::UNKNOWN;
    }
    CommandLineResolver.resolve(info.model.as_str())
}

/// The capability to resolve a text to a device family.
pub trait DeviceTypeResolver {
    /// The family that this strategy gives for `description`.
    spec fn resolve_spec(&self, description: Seq<char>) -> DeviceType;

    fn resolve(&self, description: &str) -> (family: DeviceType)
        ensures
            family == self.resolve_spec(description@),
    ;
}

/// Resolves the model text that the discovery tool reports.
pub struct CommandLineResolver;

impl DeviceTypeResolver for CommandLineResolver {
    open spec fn resolve_spec(&self, description: Seq<char>) -> DeviceType {
        model_family(description)
    }

    fn resolve(&self, description: &str) -> (family: DeviceType) {
        if same_text(description, "Teensy MicroMod") {
            DeviceType::MODEL02
        } else if same_text(description, "Teensy 4.0") {
            DeviceType::MODEL01
        } else if same_text(description, "Teensy 4.1") {
            DeviceType::HEADLESS
        } else {
            DeviceType::UNKNOWN
        }
    }
}

/// Resolves a free text by the marker it holds.
pub struct SerialOutputResolver;

impl DeviceTypeResolver for SerialOutputResolver {
    open spec fn resolve_spec(&self, description: Seq<char>) -> DeviceType {
        banner_family(description)
    }

    fn resolve(&self, description: &str) -> (family: DeviceType) {
        if contains(description, "M8") {
            DeviceType::MODEL01
        } else if contains(description, "HalfKay") {
            DeviceType::MODEL02
        } else {
            DeviceType::UNKNOWN
        }
    }
}

/// The two classification strategies as a choice that a caller names.
#[derive(Debug, Clone, Copy, PartialEq, Eq, Structural)]
pub enum Strategy {
    /// Classify from the model text of a descriptor.
    FromDescriptorAndModel,
    /// Classify from a marker in a free text.
    FromFreeText,
}

impl DeviceTypeResolver for Strategy {
    open spec fn resolve_spec(&self, description: Seq<char>) -> DeviceType {
        match self {
            Strategy::FromDescriptorAndModel => model_family(description),
            Strategy::FromFreeText => banner_family(description),
        }
    }

    fn resolve(&self, description: &str) -> (family: DeviceType) {
        match self {
            Strategy::FromDescriptorAndModel => CommandLineResolver.resolve(description),
            Strategy::FromFreeText => SerialOutputResolver.resolve(description),
        }
    }
}

impl DeviceType {
    /// The family that `resolver` gives for `description`.
    pub fn new(description: &str, resolver: Box<dyn DeviceTypeResolver>) -> (family: DeviceType)
        ensures
            family == resolver.resolve_spec(description@),
    {
        resolver.resolve(description)
    }

    /// The name of the family, as it appears in firmware file names.
    pub fn name(&self) -> (name: &'static str)
        ensures
            name@ == family_name(*self),
    {
        match self {
            DeviceType::HEADLESS => "HEADLESS",
            DeviceType::MODEL01 => "MODEL01",
            DeviceType::MODEL02 => "MODEL02",
            DeviceType::UNKNOWN => "UNKNOWN",
        }
    }

    /// Whether devices of this family are kept in the registry.
    pub fn is_retained(&self) -> (r: bool)
        ensures
            r == is_retainable(*self),
    {
        match self {
            DeviceType::MODEL01 => true,
            DeviceType::MODEL02 => true,
            _ => false,
        }
    }
}

/// The most actions that a record's history holds.
pub const MAX_HISTORY: usize = 20;

/// One tracked physical device.
#[derive(Debug)]
pub struct ConnectedDevice {
    /// The actions seen for this device, newest last.
    pub action_history: Vec<String>,
    pub device_type: DeviceType,
    /// The descriptor last seen for this device.
    pub ty_cmd_info: TyCmdListEntry,
    /// When the record last changed, in milliseconds since the Unix epoch.
    pub updated_at: i64,
}

/// The mathematical value of a device record.
pub struct DeviceView {
    pub action_history: Seq<Seq<char>>,
    pub device_type: DeviceType,
    pub ty_cmd_info: EntryView,
    pub updated_at: int,
}

impl View for ConnectedDevice {
    type V = DeviceView;

    open spec fn view(&self) -> DeviceView {
        DeviceView {
            action_history: self.action_history.deep_view(),
            device_type: self.device_type,
            ty_cmd_info: self.ty_cmd_info@,
            updated_at: self.updated_at as int,
        }
    }
}

/// What holds of every record that the registry keeps: its family is the
/// one its descriptor classifies to, that family is retainable, and its history
/// is not empty and within the cap.
pub open spec fn record_valid(record: DeviceView) -> bool {
    &&& record.device_type == classify(record.ty_cmd_info.description, record.ty_cmd_info.model)
    &&& is_retainable(record.device_type)
    &&& 1 <= record.action_history.len() <= MAX_HISTORY
}

impl Clone for ConnectedDevice {
    fn clone(&self) -> (copy: Self)
        ensures
            copy@ == self@,
    {
        ConnectedDevice {
            action_history: clone_texts(&self.action_history),
            device_type: self.device_type,
            ty_cmd_info: self.ty_cmd_info.clone(),
            updated_at: self.updated_at,
        }
    }
}

impl PartialEq for ConnectedDevice {
    fn eq(&self, other: &Self) -> (r: bool) {
        same_texts(&self.action_history, &other.action_history) && self.device_type
            == other.device_type && self.ty_cmd_info == other.ty_cmd_info && self.updated_at
            == other.updated_at
    }
}

impl vstd::std_specs::cmp::PartialEqSpecImpl for ConnectedDevice {
    open spec fn obeys_eq_spec() -> bool {
        true
    }

    open spec fn eq_spec(&self, other: &Self) -> bool {
        self@ == other@
    }
}

impl Eq for ConnectedDevice {

}

impl ConnectedDevice {
    /// Whether this record may stand in the registry.
    pub fn is_valid(&self) -> (r: bool)
        ensures
            r == record_valid(self@),
    {
        let family = determine_device_type(&self.ty_cmd_info);
        self.device_type == family && family.is_retained() && 1 <= self.action_history.len()
            && self.action_history.len() <= MAX_HISTORY
    }
}

/// Three devices and their families: one that describes itself as
/// `Teensyduino RawHID` is unknown whatever its model; an `M8` on a
/// `Teensy MicroMod` is a ModelTwo; a `HalfKay` on a `Teensy 4.0` is a
/// ModelOne.
pub proof fn lemma_classification_examples(model: Seq<char>)
    ensures
        !known_description("Teensyduino RawHID"@),
        classify("Teensyduino RawHID"@, model) == DeviceType::UNKNOWN,
        classify("M8"@, "Teensy MicroMod"@) == DeviceType::MODEL02,
        classify("HalfKay"@, "Teensy 4.0"@) == DeviceType::MODEL01,
{
    reveal_strlit("Teensyduino RawHID");
    reveal_strlit("M8");
    reveal_strlit("HalfKay");
    reveal_strlit("Teensy MicroMod");
    reveal_strlit("Teensy 4.0");
    assert("Teensyduino RawHID"@.len() == 18);
    assert("M8"@.len() == 2);
    assert("HalfKay"@.len() == 7);
    assert("Teensy MicroMod"@.len() == 15);
    assert("Teensy 4.0"@.len() == 10);
}

} // verus!
