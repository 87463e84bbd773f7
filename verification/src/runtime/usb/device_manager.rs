//! Which HID interfaces belong to the board, and which of them to open.

use vstd::prelude::*;
use std::collections::HashMap;
use crate::kernel::error;
use crate::kernel::error::BoardError;
use crate::kernel::protocol_hid::{
    is_target_pid, PID, PID_BLE, USAGE_PAGE_AUDIO, USAGE_PAGE_CONFIG, VID,
};
use crate::kernel::text;
use crate::kernel::types;
use crate::kernel::types::{is_usb_audio_device_name, ConnectionType};

verus! {

broadcast use vstd::std_specs::hash::group_hash_axioms;

/// Usage of the config interface that answers commands.
pub const CONFIG_USAGE: u16 = 0x0002;

/// Bus that an interface hangs on.
#[derive(Debug, Clone, Copy, PartialEq, Eq, Structural)]
pub enum HidBus {
    Unknown,
    Usb,
    Bluetooth,
    I2c,
    Spi,
}

/// A HID interface as the enumeration lists it.
#[derive(Debug, Clone, Copy, PartialEq, Eq, Structural)]
pub struct HidInterface {
    pub vendor_id: u16,
    pub product_id: u16,
    pub usage_page: u16,
    pub usage: u16,
    pub interface_number: i32,
    pub bus: HidBus,
}

impl HidInterface {
    /// The interface belongs to the board.
    pub open spec fn is_board(&self) -> bool {
        self.vendor_id == VID && self.product_id == PID
    }

    /// Tells whether the interface belongs to the board.
    pub fn belongs_to_board(&self) -> (r: bool)
        ensures
            r == self.is_board(),
    {
        self.vendor_id == VID && is_target_pid(self.product_id)
    }
}

/// An audio input as the system lists it, with its default configuration.
#[derive(Debug, Clone)]
pub struct AudioInput {
    pub name: String,
    pub sample_rate: u32,
    pub channels: u16,
}

impl AudioInput {
    /// The input is the board's: 16 kHz mono, and named like the board.
    pub open spec fn is_board(&self) -> bool {
        self.sample_rate == 16000 && self.channels == 1 && types::names_board_audio(self.name@)
    }
}

/// The positions of the board's interfaces among the first `n`, in order.
pub open spec fn board_positions(list: Seq<HidInterface>, n: int) -> Seq<usize>
    decreases n,
{
    if n <= 0 {
        Seq::empty()
    } else if list[n - 1].is_board() {
        board_positions(list, n - 1).push((n - 1) as usize)
    } else {
        board_positions(list, n - 1)
    }
}

/// The positions of the board's interfaces.
pub fn enumerate_devices(list: &[HidInterface]) -> (r: Vec<usize>)
    ensures
        r@ == board_positions(list@, list@.len() as int),
{
    let mut out: Vec<usize> = Vec::new();
    let mut i: usize = 0;
    while i < list.len()
        invariant
            i <= list@.len(),
            out@ == board_positions(list@, i as int),
        decreases list@.len() - i,
    {
        if list[i].belongs_to_board() {
            out.push(i);
        }
        i = i + 1;
    }
    out
}

/// Some interface of the board is listed.
pub open spec fn lists_board(list: Seq<HidInterface>) -> bool {
    exists|i: int| 0 <= i < list.len() && (#[trigger] list[i]).is_board()
}

/// Tells whether the board is there at all.
pub fn is_device_present(list: &[HidInterface]) -> (r: bool)
    ensures
        r == lists_board(list@),
{
    let mut i: usize = 0;
    while i < list.len()
        invariant
            i <= list@.len(),
            forall|j: int| 0 <= j < i ==> !(#[trigger] list@[j]).is_board(),
        decreases list@.len() - i,
    {
        if list[i].belongs_to_board() {
            return true;
        }
        i = i + 1;
    }
    false
}

/// Some audio input is the board's.
pub open spec fn hears_board(inputs: Seq<AudioInput>) -> bool {
    exists|i: int| 0 <= i < inputs.len() && (#[trigger] inputs[i]).is_board()
}

/// Some interface carries the board's vendor and BLE product number.
pub open spec fn lists_ble(list: Seq<HidInterface>) -> bool {
    exists|i: int|
        0 <= i < list.len() && (#[trigger] list[i]).vendor_id == VID && list[i].product_id == PID_BLE
}

/// How the board is connected, judged by its audio input first and by its HID interfaces second.
pub fn detect_connection_type(inputs: &Vec<AudioInput>, list: &[HidInterface]) -> (r: Option<
    ConnectionType,
>)
    ensures
        r == (if hears_board(inputs@) {
            Some(ConnectionType::Usb)
        } else if lists_ble(list@) {
            Some(ConnectionType::Ble)
        } else {
            None
        }),
{
    let mut i: usize = 0;
    while i < inputs.len()
        invariant
            i <= inputs@.len(),
            forall|j: int| 0 <= j < i ==> !(#[trigger] inputs@[j]).is_board(),
        decreases inputs@.len() - i,
    {
        if inputs[i].sample_rate == 16000 && inputs[i].channels == 1 && is_usb_audio_device_name(
            inputs[i].name.as_str(),
        ) {
            assert(inputs@[i as int].is_board());
            return Some(ConnectionType::Usb);
        }
        i = i + 1;
    }
    let mut k: usize = 0;
    while k < list.len()
        invariant
            k <= list@.len(),
            !hears_board(inputs@),
            forall|j: int|
                0 <= j < k ==> (#[trigger] list@[j]).vendor_id != VID || list@[j].product_id
                    != PID_BLE,
        decreases list@.len() - k,
    {
        if list[k].vendor_id == VID && list[k].product_id == PID_BLE {
            assert(list@[k as int].vendor_id == VID && list@[k as int].product_id == PID_BLE);
            return Some(ConnectionType::Ble);
        }
        k = k + 1;
    }
    None
}

/// An interface of the board with this usage page, and with this usage where one is given.
pub open spec fn serves(i: HidInterface, usage_page: u16, usage: Option<u16>) -> bool {
    i.is_board() && i.usage_page == usage_page && (usage matches Some(u) ==> i.usage == u)
}

/// `r` is the first interface that serves the page and usage.
pub open spec fn is_first_serving(
    list: Seq<HidInterface>,
    usage_page: u16,
    usage: Option<u16>,
    r: Option<usize>,
) -> bool {
    match r {
        Some(i) => i < list.len() && serves(list[i as int], usage_page, usage) && forall|j: int|
            0 <= j < i ==> !serves(#[trigger] list[j], usage_page, usage),
        None => forall|j: int|
            0 <= j < list.len() ==> !serves(#[trigger] list[j], usage_page, usage),
    }
}

fn first_serving(list: &[HidInterface], usage_page: u16, usage: Option<u16>) -> (r: Option<usize>)
    ensures
        is_first_serving(list@, usage_page, usage, r),
{
    let mut i: usize = 0;
    while i < list.len()
        invariant
            i <= list@.len(),
            forall|j: int| 0 <= j < i ==> !serves(#[trigger] list@[j], usage_page, usage),
        decreases list@.len() - i,
    {
        let usage_fits: bool = match usage {
            Some(u) => list[i].usage == u,
            None => true,
        };
        if list[i].belongs_to_board() && list[i].usage_page == usage_page && usage_fits {
            return Some(i);
        }
        i = i + 1;
    }
    None
}

/// Text of a missing interface with a usage page and usage.
pub open spec fn missing_usage_text(usage_page: u16, usage: u16) -> Seq<char> {
    "未找到 Usage Page=0x"@ + text::hex_text(usage_page as nat, 4) + ", Usage=0x"@ + text::hex_text(
        usage as nat,
        4,
    ) + " 的接口"@
}

/// Text of a missing interface with a usage page.
pub open spec fn missing_page_text(usage_page: u16) -> Seq<char> {
    "未找到 Usage Page=0x"@ + text::hex_text(usage_page as nat, 4) + " 的接口"@
}

/// The interface of the board with a usage page and usage.
pub fn connect_usage_page_and_usage(list: &[HidInterface], usage_page: u16, usage: u16) -> (r:
    Result<usize, BoardError>)
    ensures
        match r {
            Ok(i) => is_first_serving(list@, usage_page, Some(usage), Some(i)),
            Err(_) => is_first_serving(list@, usage_page, Some(usage), None) && error::fails_with(
                r,
                missing_usage_text(usage_page, usage),
            ),
        },
{
    match first_serving(list, usage_page, Some(usage)) {
        Some(i) => Ok(i),
        None => {
            let mut message: String = "未找到 Usage Page=0x".to_string();
            text::append_hex(&mut message, usage_page as u64, 4);
            message.append(", Usage=0x");
            text::append_hex(&mut message, usage as u64, 4);
            message.append(" 的接口");
            Err(BoardError::Other(message))
        },
    }
}

/// The first interface of the board with a usage page.
pub fn connect_usage_page(list: &[HidInterface], usage_page: u16) -> (r: Result<usize, BoardError>)
    ensures
        match r {
            Ok(i) => is_first_serving(list@, usage_page, None, Some(i)),
            Err(_) => is_first_serving(list@, usage_page, None, None) && error::fails_with(
                r,
                missing_page_text(usage_page),
            ),
        },
{
    match first_serving(list, usage_page, None) {
        Some(i) => Ok(i),
        None => {
            let mut message: String = "未找到 Usage Page=0x".to_string();
            text::append_hex(&mut message, usage_page as u64, 4);
            message.append(" 的接口");
            Err(BoardError::Other(message))
        },
    }
}

/// `r` is the config interface to talk to: the one that answers commands where it is listed, else
/// the first of the config page.
pub open spec fn is_config_choice(list: Seq<HidInterface>, r: Option<usize>) -> bool {
    if exists|i: int|
        0 <= i < list.len() && serves(#[trigger] list[i], USAGE_PAGE_CONFIG, Some(CONFIG_USAGE)) {
        is_first_serving(list, USAGE_PAGE_CONFIG, Some(CONFIG_USAGE), r)
    } else {
        is_first_serving(list, USAGE_PAGE_CONFIG, None, r)
    }
}

/// The config interface to talk to.
pub fn find_config_interface(list: &[HidInterface]) -> (r: Option<usize>)
    ensures
        is_config_choice(list@, r),
{
    match first_serving(list, USAGE_PAGE_CONFIG, Some(CONFIG_USAGE)) {
        Some(i) => Some(i),
        None => first_serving(list, USAGE_PAGE_CONFIG, None),
    }
}

/// The config interface to send a command to.
pub fn command_interface(list: &[HidInterface]) -> (r: Result<usize, BoardError>)
    ensures
        match r {
            Ok(i) => is_config_choice(list@, Some(i)),
            Err(_) => is_config_choice(list@, None) && error::fails_with(r, "未找到 Config 接口"@),
        },
{
    match find_config_interface(list) {
        Some(i) => Ok(i),
        None => Err(error::other_error("未找到 Config 接口")),
    }
}

/// The vendor audio interface.
pub fn audio_interface(list: &[HidInterface]) -> (r: Result<usize, BoardError>)
    ensures
        match r {
            Ok(i) => is_first_serving(list@, USAGE_PAGE_AUDIO, None, Some(i)),
            Err(_) => is_first_serving(list@, USAGE_PAGE_AUDIO, None, None) && error::fails_with(
                r,
                "未找到 USB Vendor Audio HID 接口 (VID=0x363c, PID=0xed20)"@,
            ),
        },
{
    match first_serving(list, USAGE_PAGE_AUDIO, None) {
        Some(i) => Ok(i),
        None => Err(
            error::other_error("未找到 USB Vendor Audio HID 接口 (VID=0x363c, PID=0xed20)"),
        ),
    }
}

/// The interfaces that are open, by usage page. Opening a second interface of a page replaces the
/// first.
pub struct DeviceManager {
    devices: HashMap<u16, usize>,
}

impl View for DeviceManager {
    type V = Map<u16, usize>;

    closed spec fn view(&self) -> Map<u16, usize> {
        self.devices@
    }
}

/// The board's interfaces among the first `n` that could be opened, in order.
pub open spec fn opened_interfaces(list: Seq<HidInterface>, opened: Seq<bool>, n: int) -> Seq<
    (u16, u16),
>
    decreases n,
{
    if n <= 0 {
        Seq::empty()
    } else if list[n - 1].is_board() && opened[n - 1] {
        opened_interfaces(list, opened, n - 1).push((list[n - 1].usage_page, list[n - 1].usage))
    } else {
        opened_interfaces(list, opened, n - 1)
    }
}

/// The open interfaces after the first `n` of the list were tried.
pub open spec fn open_after(
    devices: Map<u16, usize>,
    list: Seq<HidInterface>,
    opened: Seq<bool>,
    n: int,
) -> Map<u16, usize>
    decreases n,
{
    if n <= 0 {
        devices
    } else if list[n - 1].is_board() && opened[n - 1] {
        open_after(devices, list, opened, n - 1).insert(list[n - 1].usage_page, (n - 1) as usize)
    } else {
        open_after(devices, list, opened, n - 1)
    }
}

impl DeviceManager {
    /// Nothing open.
    pub fn new() -> (r: Self)
        ensures
            r@ == Map::<u16, usize>::empty(),
    {
        DeviceManager { devices: HashMap::new() }
    }

    /// Takes in which interfaces could be opened, and lists those of the board.
    pub fn connect_all(&mut self, list: &[HidInterface], opened: &[bool]) -> (r: Result<
        Vec<(u16, u16)>,
        BoardError,
    >)
        requires
            list@.len() == opened@.len(),
        ensures
            final(self)@ == open_after(old(self)@, list@, opened@, list@.len() as int),
            match r {
                Ok(connected) => connected@.len() > 0 && connected@ == opened_interfaces(
                    list@,
                    opened@,
                    list@.len() as int,
                ),
                Err(_) => opened_interfaces(list@, opened@, list@.len() as int).len() == 0
                    && error::fails_with(r, "未找到 VID=0x363C, PID=0xED20 的 HID 设备"@),
            },
    {
        let ghost before = self@;
        let mut connected: Vec<(u16, u16)> = Vec::new();
        let mut i: usize = 0;
        while i < list.len()
            invariant
                i <= list@.len() == opened@.len(),
                self@ == open_after(before, list@, opened@, i as int),
                connected@ == opened_interfaces(list@, opened@, i as int),
            decreases list@.len() - i,
        {
            if list[i].belongs_to_board() && opened[i] {
                self.devices.insert(list[i].usage_page, i);
                connected.push((list[i].usage_page, list[i].usage));
            }
            i = i + 1;
        }
        if connected.len() == 0 {
            return Err(error::other_error("未找到 VID=0x363C, PID=0xED20 的 HID 设备"));
        }
        Ok(connected)
    }

    /// The open interface of a usage page.
    pub fn get_device(&self, usage_page: u16) -> (r: Option<usize>)
        ensures
            r == (if self@.dom().contains(usage_page) {
                Some(self@[usage_page])
            } else {
                None
            }),
    {
        match self.devices.get(&usage_page) {
            Some(i) => Some(*i),
            None => None,
        }
    }

    /// Closes everything.
    pub fn disconnect_all(&mut self)
        ensures
            final(self)@ == Map::<u16, usize>::empty(),
    {
        self.devices.clear();
    }

    /// Some interface is open.
    pub fn is_connected(&self) -> (r: bool)
        ensures
            r == (self@ != Map::<u16, usize>::empty()),
    {
        let r: bool = !self.devices.is_empty();
        proof {
            if self@.dom().len() == 0 {
                assert(self@.dom() =~= Set::empty());
                assert(self@ =~= Map::empty());
            }
        }
        r
    }
}

/// Every page that an interface was opened for stays open, and leads to an interface of that page
/// that belongs to the board.
pub proof fn law_open_pages_lead_to_their_interfaces(
    list: Seq<HidInterface>,
    opened: Seq<bool>,
    n: int,
    page: u16,
)
    requires
        0 <= n <= list.len(),
        list.len() == opened.len(),
        list.len() <= usize::MAX,
    ensures
        ({
            let open = open_after(Map::empty(), list, opened, n);
            &&& open.dom().contains(page) <==> exists|i: int|
                0 <= i < n && (#[trigger] list[i]).is_board() && opened[i] && list[i].usage_page == page
            &&& open.dom().contains(page) ==> open[page] < n && list[open[page] as int].is_board()
                && list[open[page] as int].usage_page == page
        }),
    decreases n,
{
    if n > 0 {
        law_open_pages_lead_to_their_interfaces(list, opened, n - 1, page);
        let last = list[n - 1];
        if last.is_board() && opened[n - 1] && last.usage_page == page {
            assert(list[n - 1].is_board());
        }
    }
}

/// The interface is the board's exactly when it carries the board's two numbers.
pub proof fn law_the_board_is_known_by_its_numbers(i: HidInterface)
    ensures
        i.is_board() <==> i.vendor_id == 0x363C && i.product_id == 0xED20,
{
}

/// The listed positions are those of the board's interfaces: each of them is there, nothing else
/// is, and they come in order.
pub proof fn law_the_board_is_listed_completely_and_in_order(list: Seq<HidInterface>, i: int)
    requires
        list.len() <= usize::MAX,
        0 <= i < list.len(),
    ensures
        ({
            let found = board_positions(list, list.len() as int);
            &&& found.contains(i as usize) <==> list[i].vendor_id == 0x363C && list[i].product_id
                == 0xED20
            &&& forall|a: int| 0 <= a < found.len() ==> (#[trigger] found[a]) < list.len()
            &&& forall|a: int, b: int|
                0 <= a < b < found.len() ==> #[trigger] found[a] < #[trigger] found[b]
        }),
{
    lemma_positions(list, list.len() as int, i);
}

proof fn lemma_positions(list: Seq<HidInterface>, n: int, i: int)
    requires
        0 <= n <= list.len() <= usize::MAX,
        0 <= i < list.len(),
    ensures
        board_positions(list, n).contains(i as usize) <==> i < n && list[i].is_board(),
        forall|a: int| 0 <= a < board_positions(list, n).len() ==> (#[trigger] board_positions(list, n)[a]) < n,
        forall|a: int, b: int|
            0 <= a < b < board_positions(list, n).len() ==> #[trigger] board_positions(list, n)[a]
                < #[trigger] board_positions(list, n)[b],
    decreases n,
{
    if n > 0 {
        lemma_positions(list, n - 1, i);
        let before = board_positions(list, n - 1);
        let now = board_positions(list, n);
        if list[n - 1].is_board() {
            assert(now == before.push((n - 1) as usize));
            if now.contains(i as usize) {
                let a = choose|a: int| 0 <= a < now.len() && now[a] == i as usize;
                if a < before.len() {
                    assert(before[a] == i as usize);
                }
            }
            if i < n && list[i].is_board() {
                if i == n - 1 {
                    assert(now[before.len() as int] == i as usize);
                } else {
                    let a = choose|a: int| 0 <= a < before.len() && before[a] == i as usize;
                    assert(now[a] == i as usize);
                }
            }
        }
    }
}

/// The board is there exactly when one of the listed interfaces is its; it is heard exactly when
/// one of the audio inputs is its, at 16 kHz and in mono.
pub proof fn law_presence_needs_one_of_the_board(
    list: Seq<HidInterface>,
    inputs: Seq<AudioInput>,
)
    ensures
        lists_board(list) <==> exists|i: int|
            0 <= i < list.len() && (#[trigger] list[i]).vendor_id == 0x363C && list[i].product_id
                == 0xED20,
        lists_ble(list) <==> exists|i: int|
            0 <= i < list.len() && (#[trigger] list[i]).vendor_id == 0x363C && list[i].product_id
                == 0xED20,
        hears_board(inputs) <==> exists|i: int|
            0 <= i < inputs.len() && (#[trigger] inputs[i]).sample_rate == 16000
                && inputs[i].channels == 1 && types::names_board_audio(inputs[i].name@),
{
    if lists_board(list) {
        let i = choose|i: int| 0 <= i < list.len() && (#[trigger] list[i]).is_board();
        assert(list[i].vendor_id == 0x363C);
    }
    if exists|i: int|
        0 <= i < list.len() && (#[trigger] list[i]).vendor_id == 0x363C && list[i].product_id
            == 0xED20 {
        let i = choose|i: int|
            0 <= i < list.len() && (#[trigger] list[i]).vendor_id == 0x363C && list[i].product_id
                == 0xED20;
        assert(list[i].is_board());
    }
    if hears_board(inputs) {
        let i = choose|i: int| 0 <= i < inputs.len() && (#[trigger] inputs[i]).is_board();
        assert(inputs[i].sample_rate == 16000);
    }
    if exists|i: int|
        0 <= i < inputs.len() && (#[trigger] inputs[i]).sample_rate == 16000 && inputs[i].channels
            == 1 && types::names_board_audio(inputs[i].name@) {
        let i = choose|i: int|
            0 <= i < inputs.len() && (#[trigger] inputs[i]).sample_rate == 16000
                && inputs[i].channels == 1 && types::names_board_audio(inputs[i].name@);
        assert(inputs[i].is_board());
    }
}

/// The chosen interface is the board's and has the page, and the usage where one was asked for; no
/// interface before it does, and where nothing was chosen none does at all.
pub proof fn law_the_first_fitting_interface_is_chosen(
    list: Seq<HidInterface>,
    page: u16,
    usage: u16,
    by_page: Option<usize>,
    by_usage: Option<usize>,
    j: int,
)
    requires
        0 <= j < list.len(),
        list[j].vendor_id == 0x363C,
        list[j].product_id == 0xED20,
        list[j].usage_page == page,
        is_first_serving(list, page, None, by_page),
        is_first_serving(list, page, Some(usage), by_usage),
    ensures
        by_page matches Some(i) && i <= j && list[i as int].vendor_id == 0x363C
            && list[i as int].product_id == 0xED20 && list[i as int].usage_page == page,
        list[j].usage == usage ==> (by_usage matches Some(i) && i <= j),
        by_usage matches Some(i) ==> i < list.len() && list[i as int].vendor_id == 0x363C
            && list[i as int].product_id == 0xED20 && list[i as int].usage_page == page
            && list[i as int].usage == usage,
{
    assert(serves(list[j], page, None));
    if list[j].usage == usage {
        assert(serves(list[j], page, Some(usage)));
    }
}

/// Where the board lists a config interface that answers commands, one of those is taken, the
/// first; where it lists only others of the config page, the first of them; else none.
pub proof fn law_commands_go_to_the_interface_that_answers(
    list: Seq<HidInterface>,
    r: Option<usize>,
)
    requires
        is_config_choice(list, r),
    ensures
        r matches Some(i) ==> i < list.len() && list[i as int].vendor_id == 0x363C
            && list[i as int].product_id == 0xED20 && list[i as int].usage_page == 0xFFA0,
        forall|j: int|
            0 <= j < list.len() && (#[trigger] list[j]).vendor_id == 0x363C && list[j].product_id
                == 0xED20 && list[j].usage_page == 0xFFA0 ==> r is Some && (list[j].usage == 2 ==> (
            r->0 <= j && list[r->0 as int].usage == 2)) && (list[r->0 as int].usage != 2 ==> r->0
                <= j),
{
    assert forall|j: int|
        0 <= j < list.len() && (#[trigger] list[j]).vendor_id == 0x363C && list[j].product_id
            == 0xED20 && list[j].usage_page == 0xFFA0 implies r is Some && (list[j].usage == 2 ==> (
    r->0 <= j && list[r->0 as int].usage == 2)) && (list[r->0 as int].usage != 2 ==> r->0 <= j) by {
        assert(serves(list[j], USAGE_PAGE_CONFIG, None));
        if list[j].usage == 2 {
            assert(serves(list[j], USAGE_PAGE_CONFIG, Some(CONFIG_USAGE)));
        }
    }
}

/// Some interface of the board that was opened has this page and usage.
pub open spec fn was_opened(list: Seq<HidInterface>, opened: Seq<bool>, entry: (u16, u16)) -> bool {
    exists|j: int|
        0 <= j < list.len() && (#[trigger] list[j]).vendor_id == 0x363C && list[j].product_id
            == 0xED20 && opened[j] && entry.0 == list[j].usage_page && entry.1 == list[j].usage
}

/// The report of what was opened lists the board's interfaces that could be opened, each with its
/// page and usage, and nothing else.
pub proof fn law_what_was_opened_is_reported(list: Seq<HidInterface>, opened: Seq<bool>, i: int)
    requires
        list.len() == opened.len(),
        0 <= i < list.len(),
    ensures
        ({
            let report = opened_interfaces(list, opened, list.len() as int);
            &&& list[i].vendor_id == 0x363C && list[i].product_id == 0xED20 && opened[i]
                ==> report.contains((list[i].usage_page, list[i].usage))
            &&& forall|k: int|
                0 <= k < report.len() ==> was_opened(list, opened, #[trigger] report[k])
        }),
{
    lemma_opened(list, opened, list.len() as int, i);
}

proof fn lemma_opened(list: Seq<HidInterface>, opened: Seq<bool>, n: int, i: int)
    requires
        list.len() == opened.len(),
        0 <= n <= list.len(),
        0 <= i < list.len(),
    ensures
        ({
            let report = opened_interfaces(list, opened, n);
            &&& i < n && list[i].is_board() && opened[i] ==> report.contains(
                (list[i].usage_page, list[i].usage),
            )
            &&& forall|k: int|
                0 <= k < report.len() ==> was_opened(list, opened, #[trigger] report[k])
        }),
    decreases n,
{
    if n > 0 {
        lemma_opened(list, opened, n - 1, i);
        let before = opened_interfaces(list, opened, n - 1);
        let now = opened_interfaces(list, opened, n);
        if list[n - 1].is_board() && opened[n - 1] {
            let entry = (list[n - 1].usage_page, list[n - 1].usage);
            assert(now == before.push(entry));
            if i < n && list[i].is_board() && opened[i] {
                if i == n - 1 {
                    assert(now[before.len() as int] == entry);
                } else {
                    let e = (list[i].usage_page, list[i].usage);
                    let a = choose|a: int| 0 <= a < before.len() && before[a] == e;
                    assert(now[a] == e);
                }
            }
            assert forall|k: int| 0 <= k < now.len() implies was_opened(
                list,
                opened,
                #[trigger] now[k],
            ) by {
                if k < before.len() {
                    assert(now[k] == before[k]);
                } else {
                    assert(list[n - 1].vendor_id == 0x363C);
                }
            }
        } else {
            assert(now == before);
        }
    }
}

/// Of two interfaces of one page that could be opened, the later one stays open; pages that
/// nothing was opened for stay as they were.
pub proof fn law_the_last_opened_interface_of_a_page_stays(
    devices: Map<u16, usize>,
    list: Seq<HidInterface>,
    opened: Seq<bool>,
    i: int,
    page: u16,
)
    requires
        list.len() == opened.len(),
        list.len() <= usize::MAX,
        0 <= i < list.len(),
    ensures
        ({
            let now = open_after(devices, list, opened, list.len() as int);
            &&& list[i].vendor_id == 0x363C && list[i].product_id == 0xED20 && opened[i]
                ==> now.dom().contains(list[i].usage_page) && now[list[i].usage_page] >= i
            &&& (forall|j: int|
                0 <= j < list.len() && (#[trigger] list[j]).vendor_id == 0x363C
                    && list[j].product_id == 0xED20 && opened[j] ==> list[j].usage_page != page)
                ==> now.dom().contains(page) == devices.dom().contains(page) && now[page]
                == devices[page]
        }),
{
    lemma_open_after(devices, list, opened, list.len() as int, i, page);
}

proof fn lemma_open_after(
    devices: Map<u16, usize>,
    list: Seq<HidInterface>,
    opened: Seq<bool>,
    n: int,
    i: int,
    page: u16,
)
    requires
        list.len() == opened.len(),
        list.len() <= usize::MAX,
        0 <= n <= list.len(),
        0 <= i < list.len(),
    ensures
        ({
            let now = open_after(devices, list, opened, n);
            &&& i < n && list[i].is_board() && opened[i] ==> now.dom().contains(
                list[i].usage_page,
            ) && now[list[i].usage_page] >= i
            &&& (forall|j: int|
                0 <= j < n && (#[trigger] list[j]).vendor_id == 0x363C && list[j].product_id
                    == 0xED20 && opened[j] ==> list[j].usage_page != page) ==> now.dom().contains(
                page,
            ) == devices.dom().contains(page) && now[page] == devices[page]
        }),
    decreases n,
{
    if n > 0 {
        lemma_open_after(devices, list, opened, n - 1, i, page);
        if list[n - 1].is_board() && opened[n - 1] {
            assert(list[n - 1].vendor_id == 0x363C);
        }
    }
}

/// A missing interface is named by its page, and by its usage where one was asked for, with four
/// hexadecimal digits each.
pub proof fn law_a_missing_interface_is_named(page: u16, usage: u16)
    ensures
        missing_page_text(page) == "未找到 Usage Page=0x"@ + text::hex_text(page as nat, 4)
            + " 的接口"@,
        missing_usage_text(page, usage) == "未找到 Usage Page=0x"@ + text::hex_text(page as nat, 4)
            + ", Usage=0x"@ + text::hex_text(usage as nat, 4) + " 的接口"@,
{
}

} // verus!
