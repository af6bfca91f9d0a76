//! Named presets of search settings, kept in numbered slots.
use vstd::prelude::*;

verus! {

/// A saved preset of the search form.
#[derive(Debug)]
pub struct SearchSettings {
    pub custom_thread_pool_use: bool,
    pub thread_pool_num: String,
    pub search_scope: String,
    pub custom_file_cont_use: bool,
    pub custom_property_use: bool,
    pub custom_file_size_use: bool,
    pub custom_file_crt_date_use: bool,
    pub custom_file_modi_date_use: bool,
    pub custom_file_owner_use: bool,
    pub custom_file_type_use: bool,
    pub size_max: u64,
    pub size_min: u64,
    pub crt_start: String,
    pub crt_end: String,
    pub modi_start: String,
    pub modi_end: String,
    pub owner_name: String,
    pub file_type_list: String,
    pub custom_symbolic_chk: bool,
    pub custom_sch_method: String,
    pub custom_log_use: bool,
    pub file_max_raw_val: u64,
    pub file_min_raw_val: u64,
    pub file_max_unit: String,
    pub file_min_unit: String,
}

/// One numbered slot and the preset it holds.
#[derive(Debug)]
pub struct SettingSlot {
    pub number: u32,
    pub name: String,
    pub val: SearchSettings,
}

/// All the slots.
#[derive(Debug)]
pub struct SettingsData {
    pub data: Vec<SettingSlot>,
}

/// The number of slots a fresh store holds.
pub const SLOT_COUNT: u32 = 5;

impl SearchSettings {
    /// The preset is the empty one: every option off, scope and method `"0"`,
    /// sizes zero, bounds empty, units `"B"`.
    pub open spec fn is_blank(&self) -> bool {
        &&& !self.custom_thread_pool_use
        &&& self.thread_pool_num@ == "0"@
        &&& self.search_scope@ == "0"@
        &&& !self.custom_file_cont_use
        &&& !self.custom_property_use
        &&& !self.custom_file_size_use
        &&& !self.custom_file_crt_date_use
        &&& !self.custom_file_modi_date_use
        &&& !self.custom_file_owner_use
        &&& !self.custom_file_type_use
        &&& self.size_max == 0
        &&& self.size_min == 0
        &&& self.crt_start@ == Seq::<char>::empty()
        &&& self.crt_end@ == Seq::<char>::empty()
        &&& self.modi_start@ == Seq::<char>::empty()
        &&& self.modi_end@ == Seq::<char>::empty()
        &&& self.owner_name@ == Seq::<char>::empty()
        &&& self.file_type_list@ == Seq::<char>::empty()
        &&& !self.custom_symbolic_chk
        &&& self.custom_sch_method@ == "0"@
        &&& !self.custom_log_use
        &&& self.file_max_raw_val == 0
        &&& self.file_min_raw_val == 0
        &&& self.file_max_unit@ == "B"@
        &&& self.file_min_unit@ == "B"@
    }

    /// The empty preset.
    pub fn blank() -> (r: SearchSettings)
        ensures
            r.is_blank(),
    {
        SearchSettings {
            custom_thread_pool_use: false,
            thread_pool_num: String::from_str("0"),
            search_scope: String::from_str("0"),
            custom_file_cont_use: false,
            custom_property_use: false,
            custom_file_size_use: false,
            custom_file_crt_date_use: false,
            custom_file_modi_date_use: false,
            custom_file_owner_use: false,
            custom_file_type_use: false,
            size_max: 0,
            size_min: 0,
            crt_start: String::new(),
            crt_end: String::new(),
            modi_start: String::new(),
            modi_end: String::new(),
            owner_name: String::new(),
            file_type_list: String::new(),
            custom_symbolic_chk: false,
            custom_sch_method: String::from_str("0"),
            custom_log_use: false,
            file_max_raw_val: 0,
            file_min_raw_val: 0,
            file_max_unit: String::from_str("B"),
            file_min_unit: String::from_str("B"),
        }
    }
}

/// The first slot at or after `i` with this number.
pub open spec fn slot_from(slots: Seq<SettingSlot>, number: u32, i: int) -> Option<int>
    decreases slots.len() - i,
{
    if i < 0 || i >= slots.len() {
        None
    } else if slots[i].number == number {
        Some(i)
    } else {
        slot_from(slots, number, i + 1)
    }
}

impl SettingsData {
    /// The index of the first slot with this number.
    pub open spec fn slot_index(&self, number: u32) -> Option<int> {
        slot_from(self.data@, number, 0)
    }

    /// A fresh store: slots 1 to 5, each unnamed and blank.
    pub fn fresh() -> (r: SettingsData)
        ensures
            r.data@.len() == SLOT_COUNT,
            forall|i: int|
                0 <= i < SLOT_COUNT ==> (#[trigger] r.data@[i]).number == i + 1 && r.data@[i].name@
                    == Seq::<char>::empty() && r.data@[i].val.is_blank(),
    {
        let mut data: Vec<SettingSlot> = Vec::new();
        let mut i: u32 = 1;
        while i <= SLOT_COUNT
            invariant
                1 <= i <= SLOT_COUNT + 1,
                data@.len() == i - 1,
                forall|k: int|
                    0 <= k < i - 1 ==> (#[trigger] data@[k]).number == k + 1 && data@[k].name@
                        == Seq::<char>::empty() && data@[k].val.is_blank(),
            decreases SLOT_COUNT + 1 - i,
        {
            data.push(SettingSlot { number: i, name: String::new(), val: SearchSettings::blank() });
            i = i + 1;
        }
        SettingsData { data }
    }

    fn position(&self, number: u32) -> (r: Option<usize>)
        ensures
            r matches Some(i) ==> i < self.data@.len() && self.slot_index(number) == Some(i as int),
            r is None ==> self.slot_index(number) is None,
    {
        let mut i: usize = 0;
        while i < self.data.len()
            invariant
                i <= self.data@.len(),
                self.slot_index(number) == slot_from(self.data@, number, i as int),
            decreases self.data@.len() - i,
        {
            if self.data[i].number == number {
                return Some(i);
            }
            i = i + 1;
        }
        None
    }
}

/// Stores a named preset in the first slot with this number; an unknown number
/// changes nothing.
pub fn save_settings(
    data: &mut SettingsData,
    slot_number: u32,
    name: String,
    settings: SearchSettings,
) -> (r: String)
    ensures
        r@ == "Settings saved successfully"@,
        old(data).slot_index(slot_number) is None ==> *final(data) == *old(data),
        old(data).slot_index(slot_number) matches Some(i) ==> final(data).data@ == old(
            data,
        ).data@.update(i, SettingSlot { number: slot_number, name, val: settings }),
{
    match data.position(slot_number) {
        Some(i) => {
            data.data.set(i, SettingSlot { number: slot_number, name, val: settings });
        },
        None => {},
    }
    String::from_str("Settings saved successfully")
}

/// The first slot with this number, if any.
pub fn load_settings(data: SettingsData, slot_number: u32) -> (r: Option<SettingSlot>)
    ensures
        data.slot_index(slot_number) is None ==> r is None,
        data.slot_index(slot_number) matches Some(i) ==> r == Some(data.data@[i]),
{
    match data.position(slot_number) {
        Some(i) => {
            let mut slots = data.data;
            Some(slots.swap_remove(i))
        },
        None => None,
    }
}

/// Empties the first slot with this number: no name, the blank preset; an unknown
/// number changes nothing.
pub fn delete_settings(data: &mut SettingsData, slot_number: u32) -> (r: String)
    ensures
        r@ == "Settings deleted successfully"@,
        old(data).slot_index(slot_number) is None ==> *final(data) == *old(data),
        old(data).slot_index(slot_number) matches Some(i) ==> ({
            &&& final(data).data@.len() == old(data).data@.len()
            &&& forall|j: int|
                0 <= j < old(data).data@.len() && j != i ==> #[trigger] final(data).data@[j]
                    == old(data).data@[j]
            &&& final(data).data@[i].number == slot_number
            &&& final(data).data@[i].name@ == Seq::<char>::empty()
            &&& final(data).data@[i].val.is_blank()
        }),
{
    match data.position(slot_number) {
        Some(i) => {
            data.data.set(
                i,
                SettingSlot { number: slot_number, name: String::new(), val: SearchSettings::blank() },
            );
        },
        None => {},
    }
    String::from_str("Settings deleted successfully")
}

} // verus!
