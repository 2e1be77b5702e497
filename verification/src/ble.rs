//! Which Bluetooth devices and GATT characteristics are the right ones.

use crate::atvv::DeviceConnectionEvent;
use vstd::prelude::*;

verus! {

/// ATVV Service UUID: AB5E0001-5A21-4F05-BC7D-AF01F617B664
pub const ATVV_SERVICE: u128 = 0xab5e0001_5a21_4f05_bc7d_af01f617b664;

/// ATVV TX Characteristic (Host to Remote): AB5E0002
pub const ATVV_CHAR_TX: u128 = 0xab5e0002_5a21_4f05_bc7d_af01f617b664;

/// ATVV RX Characteristic (Remote to Host, audio): AB5E0003
pub const ATVV_CHAR_RX: u128 = 0xab5e0003_5a21_4f05_bc7d_af01f617b664;

/// ATVV CTL Characteristic (Remote to Host, control): AB5E0004
pub const ATVV_CHAR_CTL: u128 = 0xab5e0004_5a21_4f05_bc7d_af01f617b664;

/// Philips vendor write characteristic UUID (ff01), the vendor activation channel.
/// Writing "ntf_enable" here signals the remote to enter ATVV-ready mode.
/// Full UUID as observed on device: 02f00000-0000-0000-0000-00000000ff01
pub const PHILIPS_VENDOR_FF01: u128 = 0x02f00000_0000_0000_0000_00000000ff01;

/// Philips vendor notify characteristic UUID (ff02), must be subscribed before writing ff01.
/// Full UUID as observed on device: 02f00000-0000-0000-0000-00000000ff02
pub const PHILIPS_VENDOR_FF02: u128 = 0x02f00000_0000_0000_0000_00000000ff02;

/// "ntf_enable", what is written to ff01.
pub const NTF_ENABLE: [u8; 10] = [
    0x6e, 0x74, 0x66, 0x5f, 0x65, 0x6e, 0x61, 0x62, 0x6c, 0x65,
];

/// How long the remote takes to enter ATVV-ready state, in milliseconds.
pub const HANDSHAKE_DELAY_MS: u64 = 500;

/// Bluetooth address.
#[derive(Debug, Clone, Copy, Eq)]
pub struct Address(pub [u8; 6]);

impl PartialEq for Address {
    fn eq(&self, other: &Address) -> (r: bool) {
        let r = self.0[0] == other.0[0] && self.0[1] == other.0[1] && self.0[2] == other.0[2]
            && self.0[3] == other.0[3] && self.0[4] == other.0[4] && self.0[5] == other.0[5];
        proof {
            if r {
                assert(self.0@ =~= other.0@);
                assert(self.0 =~= other.0);
            }
        }
        r
    }
}

impl vstd::std_specs::cmp::PartialEqSpecImpl for Address {
    open spec fn obeys_eq_spec() -> bool {
        true
    }

    open spec fn eq_spec(&self, other: &Address) -> bool {
        *self == *other
    }
}

/// A text that is no Bluetooth address. Holds the part that could not be read.
#[derive(Debug)]
pub struct InvalidAddress(pub String);

/// The upper-case hexadecimal digit of `n`.
pub open spec fn hex_digit(n: u8) -> char {
    if n < 10 {
        ('0' as u8 + n) as char
    } else {
        ('A' as u8 + (n - 10)) as char
    }
}

/// An address in colon-hexadecimal notation, such as `AA:BB:CC:DD:EE:FF`.
pub open spec fn address_text(bytes: Seq<u8>) -> Seq<char> {
    Seq::new(
        17,
        |i: int|
            if i % 3 == 0 {
                hex_digit(bytes[i / 3] / 16)
            } else if i % 3 == 1 {
                hex_digit(bytes[i / 3] % 16)
            } else {
                ':'
            },
    )
}

/// The number of colons in a text.
pub open spec fn colons(text: Seq<char>) -> nat {
    text.filter(|c: char| c == ':').len()
}

/// What bluer's `Address::from_str` makes of a text: the six bytes of an address, or the
/// part of the text that it could not read.
pub uninterp spec fn parsed_address(text: Seq<char>) -> Result<Seq<u8>, Seq<char>>;

/// Calls bluer's `Address::from_str`. Claims that the outcome depends on the text alone,
/// that the text of an address in colon-hexadecimal notation is read as that address, and
/// that a text is no address unless colons part it into six fields. What else is read, and
/// which part of a text is reported as unreadable, is left unsaid.
#[verifier::external_body]
fn bluer_parse_address(text: &str) -> (r: Result<[u8; 6], String>)
    ensures
        match r {
            Ok(bytes) => parsed_address(text@) == Ok::<Seq<u8>, Seq<char>>(bytes@),
            Err(part) => parsed_address(text@) == Err::<Seq<u8>, Seq<char>>(part@),
        },
        forall|bytes: Seq<u8>|
            bytes.len() == 6 && text@ == #[trigger] address_text(bytes) ==> r is Ok
                && r->Ok_0@ == bytes,
        colons(text@) != 5 ==> r is Err,
{
    match text.parse::<bluer::Address>() {
        Ok(address) => Ok(address.0),
        Err(e) => Err(e.0),
    }
}

/// Calls `to_string` on a bluer `Address`, whose `Display` writes the six bytes as two
/// upper-case hexadecimal digits each, with colons between them.
#[verifier::external_body]
fn bluer_address_text(bytes: [u8; 6]) -> (r: String)
    ensures
        r@ == address_text(bytes@),
{
    bluer::Address::new(bytes).to_string()
}

impl Address {
    /// The address in colon-hexadecimal notation.
    pub fn text(&self) -> (r: String)
        ensures
            r@ == address_text(self.0@),
    {
        bluer_address_text(self.0)
    }

    /// Reads an address in colon-hexadecimal notation.
    pub fn parse(text: &str) -> (r: Result<Address, InvalidAddress>)
        ensures
            match r {
                Ok(address) => parsed_address(text@) == Ok::<Seq<u8>, Seq<char>>(address.0@),
                Err(e) => parsed_address(text@) == Err::<Seq<u8>, Seq<char>>(e.0@),
            },
            forall|address: Address|
                text@ == #[trigger] address_text(address.0@) ==> r == Ok::<Address, InvalidAddress>(
                    address,
                ),
            colons(text@) != 5 ==> r is Err,
    {
        let r = match bluer_parse_address(text) {
            Ok(bytes) => Ok(Address(bytes)),
            Err(part) => Err(InvalidAddress(part)),
        };
        proof {
            assert forall|address: Address|
                text@ == #[trigger] address_text(address.0@) implies r == Ok::<
                Address,
                InvalidAddress,
            >(address) by {
                assert(r is Ok);
                assert(r->Ok_0.0@ == address.0@);
                assert(r->Ok_0.0 =~= address.0);
            }
        }
        r
    }
}

/// The filter that a parsed `--device` option asks for: none where the option is absent.
pub fn filter_of(parsed: Option<Result<Address, InvalidAddress>>) -> (r: Result<
    Option<Address>,
    InvalidAddress,
>)
    ensures
        r == match parsed {
            Some(Ok(address)) => Ok::<Option<Address>, InvalidAddress>(Some(address)),
            Some(Err(e)) => Err::<Option<Address>, InvalidAddress>(e),
            None => Ok::<Option<Address>, InvalidAddress>(None),
        },
{
    match parsed {
        Some(Ok(address)) => Ok(Some(address)),
        Some(Err(e)) => Err(e),
        None => Ok(None),
    }
}

/// The filter that a `--device` option asks for.
pub fn device_filter(device: Option<&str>) -> (r: Result<Option<Address>, InvalidAddress>)
    ensures
        match device {
            Some(text) => match r {
                Ok(filter) => filter is Some && parsed_address(text@) == Ok::<Seq<u8>, Seq<char>>(
                    filter->Some_0.0@,
                ),
                Err(e) => parsed_address(text@) == Err::<Seq<u8>, Seq<char>>(e.0@),
            },
            None => r == Ok::<Option<Address>, InvalidAddress>(None),
        },
        device matches Some(text) ==> forall|address: Address|
            text@ == #[trigger] address_text(address.0@) ==> r == Ok::<
                Option<Address>,
                InvalidAddress,
            >(Some(address)),
        device matches Some(text) ==> (colons(text@) != 5 ==> r is Err),
{
    match device {
        Some(text) => filter_of(Some(Address::parse(text))),
        None => filter_of(None),
    }
}

/// Whether the given address is to be skipped during discovery: it is excluded, or the
/// filter asks for another one.
pub open spec fn is_skipped(
    addr: Address,
    filter_addr: Option<Address>,
    excluded: Seq<Address>,
) -> bool {
    excluded.contains(addr) || (filter_addr is Some && filter_addr != Some(addr))
}

/// Returns `true` if the given address should be skipped during discovery.
pub fn should_skip(addr: Address, filter_addr: Option<Address>, excluded: &[Address]) -> (r: bool)
    ensures
        r == is_skipped(addr, filter_addr, excluded@),
{
    for i in 0..excluded.len()
        invariant
            forall|k: int| 0 <= k < i ==> excluded@[k] != addr,
    {
        if excluded[i] == addr {
            assert(excluded@[i as int] == addr);
            return true;
        }
    }
    assert(!excluded@.contains(addr));
    if let Some(filter) = filter_addr {
        if addr != filter {
            return true;
        }
    }
    false
}

/// Two addresses with the same text are the same.
pub proof fn lemma_address_text_identifies(a: Address, b: Address)
    requires
        address_text(a.0@) == address_text(b.0@),
    ensures
        a == b,
{
    assert forall|k: int| 0 <= k < 6 implies a.0@[k] == b.0@[k] by {
        assert(address_text(a.0@)[3 * k] == hex_digit(a.0@[k] / 16));
        assert(address_text(b.0@)[3 * k] == hex_digit(b.0@[k] / 16));
        assert(address_text(a.0@)[3 * k + 1] == hex_digit(a.0@[k] % 16));
        assert(address_text(b.0@)[3 * k + 1] == hex_digit(b.0@[k] % 16));
    }
    assert(a.0@ =~= b.0@);
    assert(a.0 =~= b.0);
}

/// With a filter, only the address that it names is looked at, and not even that one while
/// it is excluded. Without a filter every address is, except those excluded.
pub proof fn lemma_filter_admits_one(
    addr: Address,
    filter_addr: Option<Address>,
    excluded: Seq<Address>,
)
    ensures
        filter_addr matches Some(filter) ==> (!is_skipped(addr, filter_addr, excluded) <==> addr
            == filter && !excluded.contains(filter)),
        filter_addr is None ==> (!is_skipped(addr, filter_addr, excluded) <==> !excluded.contains(
            addr,
        )),
{
}

/// Addresses to skip during discovery (locked by another instance). None occurs twice.
#[derive(Debug)]
pub struct ExcludedDevices {
    pub addrs: Vec<Address>,
}

impl ExcludedDevices {
    pub open spec fn wf(self) -> bool {
        self.addrs@.no_duplicates()
    }

    /// No address is excluded.
    pub fn new() -> (r: ExcludedDevices)
        ensures
            r.addrs@ == Seq::<Address>::empty(),
            r.wf(),
    {
        ExcludedDevices { addrs: Vec::new() }
    }

    /// Exclude an address.
    pub fn insert(&mut self, addr: Address)
        requires
            old(self).wf(),
        ensures
            final(self).addrs@ == with_excluded(old(self).addrs@, addr),
            final(self).wf(),
    {
        if !should_skip(addr, None, self.addrs.as_slice()) {
            self.addrs.push(addr);
        }
    }
}

/// The excluded addresses once `addr` is one of them.
pub open spec fn with_excluded(excluded: Seq<Address>, addr: Address) -> Seq<Address> {
    if excluded.contains(addr) {
        excluded
    } else {
        excluded.push(addr)
    }
}

/// An address that was excluded is skipped from then on, and so is every address that was
/// skipped before; no other is.
pub proof fn lemma_excluded_stays_excluded(
    excluded: Seq<Address>,
    addr: Address,
    other: Address,
    filter_addr: Option<Address>,
)
    ensures
        is_skipped(other, filter_addr, with_excluded(excluded, addr)) <==> other == addr
            || is_skipped(other, filter_addr, excluded),
{
    let after = with_excluded(excluded, addr);
    if !excluded.contains(addr) {
        assert(after[excluded.len() as int] == addr);
        if excluded.contains(other) {
            let i = choose|i: int| 0 <= i < excluded.len() && excluded[i] == other;
            assert(after[i] == other);
        }
    }
}

/// The search for an ATVV device among those that the adapter knows already.
#[derive(Debug)]
pub struct DeviceSearch {
    pub filter_addr: Option<Address>,
    pub excluded: Vec<Address>,
    pub known: Vec<Address>,
    /// The addresses before this one have been looked at.
    pub next: usize,
}

/// The place of the first address, from `from` on, that is not skipped. The number of
/// addresses where there is none.
pub open spec fn first_wanted(
    known: Seq<Address>,
    filter_addr: Option<Address>,
    excluded: Seq<Address>,
    from: int,
) -> int
    decreases known.len() - from,
{
    if from >= known.len() {
        known.len() as int
    } else if !is_skipped(known[from], filter_addr, excluded) {
        from
    } else {
        first_wanted(known, filter_addr, excluded, from + 1)
    }
}

impl DeviceSearch {
    pub open spec fn wf(self) -> bool {
        self.next <= self.known@.len()
    }

    /// The place of the next address to look at.
    pub open spec fn upcoming(self) -> int {
        first_wanted(self.known@, self.filter_addr, self.excluded@, self.next as int)
    }

    pub fn new(filter_addr: Option<Address>, excluded: Vec<Address>, known: Vec<Address>) -> (r:
        DeviceSearch)
        ensures
            r == (DeviceSearch { filter_addr, excluded, known, next: 0 }),
            r.wf(),
    {
        DeviceSearch { filter_addr, excluded, known, next: 0 }
    }

    /// The next known device to look at. After the last one, only scanning can find more.
    pub fn next_known(&mut self) -> (r: Option<Address>)
        requires
            old(self).wf(),
        ensures
            ({
                let at = old(self).upcoming();
                &&& r == (if at < old(self).known@.len() {
                    Some(old(self).known@[at])
                } else {
                    None
                })
                &&& final(self).next == (if at < old(self).known@.len() {
                    at + 1
                } else {
                    at
                })
            }),
            final(self).filter_addr == old(self).filter_addr,
            final(self).excluded == old(self).excluded,
            final(self).known == old(self).known,
            final(self).wf(),
    {
        while self.next < self.known.len()
            invariant
                self.wf(),
                self.filter_addr == old(self).filter_addr,
                self.excluded == old(self).excluded,
                self.known == old(self).known,
                self.upcoming() == old(self).upcoming(),
            decreases self.known@.len() - self.next,
        {
            let addr = self.known[self.next];
            self.next = self.next + 1;
            if self.wants(addr) {
                return Some(addr);
            }
        }
        None
    }

    /// Whether a device ends the search: it is not skipped, it is bonded, and it is an ATVV
    /// device.
    pub fn accepts(&self, addr: Address, bonded: bool, uuids: Option<&[u128]>) -> (r: bool)
        ensures
            r == {
                &&& !is_skipped(addr, self.filter_addr, self.excluded@)
                &&& bonded
                &&& uuids is Some
                &&& uuids->0@.contains(ATVV_SERVICE)
            },
    {
        self.wants(addr) && is_candidate(bonded, uuids)
    }

    /// Whether a device that a scan came across is to be looked at.
    pub fn wants(&self, addr: Address) -> (r: bool)
        ensures
            r == !is_skipped(addr, self.filter_addr, self.excluded@),
    {
        !should_skip(addr, self.filter_addr, self.excluded.as_slice())
    }
}

/// The search passes over skipped addresses and over no others.
pub proof fn lemma_search_misses_none(
    known: Seq<Address>,
    filter_addr: Option<Address>,
    excluded: Seq<Address>,
    from: int,
)
    requires
        0 <= from <= known.len(),
    ensures
        ({
            let at = first_wanted(known, filter_addr, excluded, from);
            &&& from <= at <= known.len()
            &&& at < known.len() ==> !is_skipped(known[at], filter_addr, excluded)
            &&& forall|k: int|
                from <= k < at ==> is_skipped(#[trigger] known[k], filter_addr, excluded)
        }),
    decreases known.len() - from,
{
    if from < known.len() && is_skipped(known[from], filter_addr, excluded) {
        lemma_search_misses_none(known, filter_addr, excluded, from + 1);
    }
}

/// Whether a device is an ATVV device by the service UUIDs that it advertises. One whose
/// UUIDs are not known is not.
pub fn advertises_atvv(uuids: Option<&[u128]>) -> (r: bool)
    ensures
        r == (uuids is Some && uuids->0@.contains(ATVV_SERVICE)),
{
    match uuids {
        Some(uuids) => last_position(uuids, ATVV_SERVICE).is_some(),
        None => false,
    }
}

/// Whether a device is one to take: it is bonded and an ATVV device.
pub fn is_candidate(bonded: bool, uuids: Option<&[u128]>) -> (r: bool)
    ensures
        r == (bonded && uuids is Some && uuids->0@.contains(ATVV_SERVICE)),
{
    bonded && advertises_atvv(uuids)
}

/// The place of the last occurrence of `uuid`.
pub open spec fn last_index(uuids: Seq<u128>, uuid: u128) -> Option<int>
    decreases uuids.len(),
{
    if uuids.len() == 0 {
        None
    } else if uuids.last() == uuid {
        Some(uuids.len() - 1)
    } else {
        last_index(uuids.drop_last(), uuid)
    }
}

/// The last occurrence is one, and none comes after it; there is none where the UUID does
/// not occur at all.
pub proof fn lemma_last_index(uuids: Seq<u128>, uuid: u128)
    ensures
        match last_index(uuids, uuid) {
            Some(i) => {
                &&& 0 <= i < uuids.len()
                &&& uuids[i] == uuid
                &&& forall|k: int| i < k < uuids.len() ==> uuids[k] != uuid
            },
            None => !uuids.contains(uuid),
        },
    decreases uuids.len(),
{
    if uuids.len() > 0 && uuids.last() != uuid {
        lemma_last_index(uuids.drop_last(), uuid);
        assert forall|k: int| 0 <= k < uuids.len() - 1 implies uuids[k]
            == uuids.drop_last()[k] by {}
        if last_index(uuids, uuid) is None && uuids.contains(uuid) {
            let k = choose|k: int| 0 <= k < uuids.len() && uuids[k] == uuid;
            assert(uuids.drop_last()[k] == uuid);
        }
    }
}

fn last_position(uuids: &[u128], uuid: u128) -> (r: Option<usize>)
    ensures
        match r {
            Some(i) => last_index(uuids@, uuid) == Some(i as int),
            None => last_index(uuids@, uuid) is None,
        },
        r is Some <==> uuids@.contains(uuid),
        r is Some ==> r->0 < uuids@.len(),
{
    let mut found: Option<usize> = None;
    for i in 0..uuids.len()
        invariant
            match found {
                Some(k) => last_index(uuids@.take(i as int), uuid) == Some(k as int),
                None => last_index(uuids@.take(i as int), uuid) is None,
            },
    {
        assert(uuids@.take(i + 1).drop_last() =~= uuids@.take(i as int));
        if uuids[i] == uuid {
            found = Some(i);
        }
    }
    proof {
        assert(uuids@.take(uuids@.len() as int) =~= uuids@);
        lemma_last_index(uuids@, uuid);
    }
    found
}

/// Whether a GATT service is the ATVV service.
pub fn is_atvv_service(uuid: u128) -> (r: bool)
    ensures
        r == (uuid == ATVV_SERVICE),
{
    uuid == ATVV_SERVICE
}

/// The place of the ATVV service among services, by their UUIDs in order. Where it occurs
/// more than once the first counts.
pub fn first_atvv_service(uuids: &[u128]) -> (r: Option<usize>)
    ensures
        match r {
            Some(i) => {
                &&& i < uuids@.len()
                &&& uuids@[i as int] == ATVV_SERVICE
                &&& forall|k: int| 0 <= k < i ==> uuids@[k] != ATVV_SERVICE
            },
            None => !uuids@.contains(ATVV_SERVICE),
        },
{
    for i in 0..uuids.len()
        invariant
            forall|k: int| 0 <= k < i ==> uuids@[k] != ATVV_SERVICE,
    {
        if is_atvv_service(uuids[i]) {
            return Some(i);
        }
    }
    None
}

/// The three ATVV characteristics of a device.
#[derive(Debug, Clone, Copy)]
pub struct AtvvChars<T> {
    pub tx: T,
    pub rx: T,
    pub ctl: T,
}

/// The ATVV characteristic that a device lacks.
#[derive(Debug, Clone, Copy, PartialEq, Eq, Structural)]
pub enum MissingChar {
    Tx,
    Rx,
    Ctl,
}

impl MissingChar {
    pub open spec fn text(self) -> Seq<char> {
        match self {
            MissingChar::Tx => "ATVV TX characteristic not found"@,
            MissingChar::Rx => "ATVV RX characteristic not found"@,
            MissingChar::Ctl => "ATVV CTL characteristic not found"@,
        }
    }

    pub fn message(&self) -> (r: &'static str)
        ensures
            r@ == self.text(),
    {
        match self {
            MissingChar::Tx => "ATVV TX characteristic not found",
            MissingChar::Rx => "ATVV RX characteristic not found",
            MissingChar::Ctl => "ATVV CTL characteristic not found",
        }
    }
}

/// Finds the three characteristics among those of the ATVV service, by their UUIDs in order.
/// Where one occurs more than once the last counts. Of those that are missing, the first
/// one in the order TX, RX, CTL is reported.
pub fn select_chars(uuids: &[u128]) -> (r: Result<AtvvChars<usize>, MissingChar>)
    ensures
        ({
            let tx = last_index(uuids@, ATVV_CHAR_TX);
            let rx = last_index(uuids@, ATVV_CHAR_RX);
            let ctl = last_index(uuids@, ATVV_CHAR_CTL);
            match r {
                Ok(chars) => {
                    &&& tx == Some(chars.tx as int)
                    &&& rx == Some(chars.rx as int)
                    &&& ctl == Some(chars.ctl as int)
                },
                Err(MissingChar::Tx) => tx is None,
                Err(MissingChar::Rx) => tx is Some && rx is None,
                Err(MissingChar::Ctl) => tx is Some && rx is Some && ctl is None,
            }
        }),
        r matches Ok(chars) ==> chars.tx < uuids@.len() && chars.rx < uuids@.len() && chars.ctl
            < uuids@.len(),
{
    let tx: usize = match last_position(uuids, ATVV_CHAR_TX) {
        Some(i) => i,
        None => return Err(MissingChar::Tx),
    };
    let rx: usize = match last_position(uuids, ATVV_CHAR_RX) {
        Some(i) => i,
        None => return Err(MissingChar::Rx),
    };
    let ctl: usize = match last_position(uuids, ATVV_CHAR_CTL) {
        Some(i) => i,
        None => return Err(MissingChar::Ctl),
    };
    Ok(AtvvChars { tx, rx, ctl })
}

/// The characteristics are found exactly where all three occur, and each of them is what it
/// is taken for.
pub proof fn lemma_selected_chars_are_right(uuids: Seq<u128>)
    ensures
        last_index(uuids, ATVV_CHAR_TX) is Some <==> uuids.contains(ATVV_CHAR_TX),
        last_index(uuids, ATVV_CHAR_RX) is Some <==> uuids.contains(ATVV_CHAR_RX),
        last_index(uuids, ATVV_CHAR_CTL) is Some <==> uuids.contains(ATVV_CHAR_CTL),
        last_index(uuids, ATVV_CHAR_TX) matches Some(i) ==> uuids[i] == ATVV_CHAR_TX,
        last_index(uuids, ATVV_CHAR_RX) matches Some(i) ==> uuids[i] == ATVV_CHAR_RX,
        last_index(uuids, ATVV_CHAR_CTL) matches Some(i) ==> uuids[i] == ATVV_CHAR_CTL,
{
    lemma_last_index(uuids, ATVV_CHAR_TX);
    lemma_last_index(uuids, ATVV_CHAR_RX);
    lemma_last_index(uuids, ATVV_CHAR_CTL);
}

/// A characteristic, by the place of its service and its place in the service.
#[derive(Debug, Clone, Copy, PartialEq, Eq, Structural)]
pub struct CharPlace {
    pub service: usize,
    pub char: usize,
}

/// A GATT service: its UUID and those of its characteristics.
pub struct ServiceView {
    pub uuid: u128,
    pub chars: Seq<u128>,
}

/// The search for the Philips vendor characteristics.
#[derive(Debug, Clone, Copy, PartialEq, Eq, Structural)]
pub struct VendorScan {
    pub ff01: Option<CharPlace>,
    pub ff02: Option<CharPlace>,
}

/// One step of the Philips vendor handshake.
#[derive(Debug, Clone, Copy, PartialEq, Eq, Structural)]
pub enum HandshakeStep {
    /// Subscribe to notifications, and stay subscribed. The handshake goes on where that
    /// fails.
    Subscribe(CharPlace),
    /// Write "ntf_enable". The handshake fails where that fails.
    Write(CharPlace),
    /// Wait this many milliseconds.
    Pause(u64),
}

impl VendorScan {
    /// Nothing is found yet.
    pub open spec fn start() -> VendorScan {
        VendorScan { ff01: None, ff02: None }
    }

    /// The search is over once the write characteristic is found.
    pub open spec fn is_done(self) -> bool {
        self.ff01 is Some
    }

    /// The search after one more service. The ATVV service is passed over.
    pub open spec fn after(self, index: usize, service: ServiceView) -> VendorScan {
        if self.is_done() || service.uuid == ATVV_SERVICE {
            self
        } else {
            let place = |uuid: u128, before: Option<CharPlace>|
                match last_index(service.chars, uuid) {
                    Some(i) => Some(CharPlace { service: index, char: i as usize }),
                    None => before,
                };
            VendorScan {
                ff01: place(PHILIPS_VENDOR_FF01, self.ff01),
                ff02: place(PHILIPS_VENDOR_FF02, self.ff02),
            }
        }
    }

    /// What a search through `services` finds.
    pub open spec fn over(services: Seq<ServiceView>) -> VendorScan
        decreases services.len(),
    {
        if services.len() == 0 {
            VendorScan::start()
        } else {
            VendorScan::over(services.drop_last()).after(
                (services.len() - 1) as usize,
                services.last(),
            )
        }
    }

    pub fn new() -> (r: VendorScan)
        ensures
            r == VendorScan::start(),
    {
        VendorScan { ff01: None, ff02: None }
    }

    /// Whether the characteristics of a service are to be looked at.
    pub fn wants(&self, uuid: u128) -> (r: bool)
        ensures
            r == (!self.is_done() && uuid != ATVV_SERVICE),
    {
        self.ff01.is_none() && uuid != ATVV_SERVICE
    }

    /// Look at the service number `index`.
    pub fn visit(&mut self, index: usize, uuid: u128, chars: &[u128])
        ensures
            *final(self) == old(self).after(index, ServiceView { uuid, chars: chars@ }),
    {
        if self.wants(uuid) {
            if let Some(i) = last_position(chars, PHILIPS_VENDOR_FF01) {
                self.ff01 = Some(CharPlace { service: index, char: i });
            }
            if let Some(i) = last_position(chars, PHILIPS_VENDOR_FF02) {
                self.ff02 = Some(CharPlace { service: index, char: i });
            }
        }
    }

    /// The steps of the handshake with what was found.
    pub open spec fn steps(self) -> Seq<HandshakeStep> {
        match (self.ff01, self.ff02) {
            (None, _) => seq![],
            (Some(ff01), None) => seq![
                HandshakeStep::Write(ff01),
                HandshakeStep::Pause(HANDSHAKE_DELAY_MS),
            ],
            (Some(ff01), Some(ff02)) => seq![
                HandshakeStep::Subscribe(ff02),
                HandshakeStep::Write(ff01),
                HandshakeStep::Pause(HANDSHAKE_DELAY_MS),
            ],
        }
    }

    /// The steps to perform, in order. There are none for a device that is no Philips device.
    pub fn handshake(&self) -> (r: Vec<HandshakeStep>)
        ensures
            r@ == self.steps(),
    {
        let mut steps: Vec<HandshakeStep> = Vec::new();
        if let Some(ff01) = self.ff01 {
            if let Some(ff02) = self.ff02 {
                steps.push(HandshakeStep::Subscribe(ff02));
            }
            steps.push(HandshakeStep::Write(ff01));
            steps.push(HandshakeStep::Pause(HANDSHAKE_DELAY_MS));
        }
        assert(steps@ =~= self.steps());
        steps
    }
}

/// A characteristic at `place` is `uuid`, in a service other than the ATVV service.
pub open spec fn is_vendor_char(services: Seq<ServiceView>, place: CharPlace, uuid: u128) -> bool {
    &&& place.service < services.len()
    &&& services[place.service as int].uuid != ATVV_SERVICE
    &&& place.char < services[place.service as int].chars.len()
    &&& services[place.service as int].chars[place.char as int] == uuid
}

/// The search finds the vendor characteristics where they are. It finds the write
/// characteristic, and a handshake is performed, exactly where one of the services other
/// than the ATVV service has it.
pub proof fn lemma_vendor_scan_is_right(services: Seq<ServiceView>)
    requires
        services.len() <= usize::MAX,
        forall|i: int| 0 <= i < services.len() ==> (#[trigger] services[i]).chars.len() <= usize::MAX,
    ensures
        VendorScan::over(services).ff01 matches Some(place) ==> is_vendor_char(
            services,
            place,
            PHILIPS_VENDOR_FF01,
        ),
        VendorScan::over(services).ff02 matches Some(place) ==> is_vendor_char(
            services,
            place,
            PHILIPS_VENDOR_FF02,
        ),
        VendorScan::over(services).ff01 is Some <==> exists|i: int|
            0 <= i < services.len() && (#[trigger] services[i]).uuid != ATVV_SERVICE
                && services[i].chars.contains(PHILIPS_VENDOR_FF01),
        VendorScan::over(services).steps().len() > 0 <==> VendorScan::over(services).ff01 is Some,
    decreases services.len(),
{
    if services.len() > 0 {
        let before = services.drop_last();
        assert forall|i: int| 0 <= i < before.len() implies (#[trigger] before[i]).chars.len()
            <= usize::MAX by {
            assert(before[i] == services[i]);
        }
        lemma_vendor_scan_is_right(before);
        let last = services.last();
        assert(services[services.len() - 1] == last);
        lemma_last_index(last.chars, PHILIPS_VENDOR_FF01);
        lemma_last_index(last.chars, PHILIPS_VENDOR_FF02);
        assert forall|i: int| 0 <= i < before.len() implies before[i] == services[i] by {}
        let has = |s: ServiceView|
            s.uuid != ATVV_SERVICE && s.chars.contains(PHILIPS_VENDOR_FF01);
        if VendorScan::over(services).ff01 is Some {
            if VendorScan::over(before).ff01 is Some {
                let i = choose|i: int|
                    0 <= i < before.len() && (#[trigger] before[i]).uuid != ATVV_SERVICE
                        && before[i].chars.contains(PHILIPS_VENDOR_FF01);
                assert(has(services[i]));
            } else {
                assert(has(services[services.len() - 1]));
            }
        } else if exists|i: int|
            0 <= i < services.len() && (#[trigger] services[i]).uuid != ATVV_SERVICE
                && services[i].chars.contains(PHILIPS_VENDOR_FF01) {
            let i = choose|i: int|
                0 <= i < services.len() && (#[trigger] services[i]).uuid != ATVV_SERVICE
                    && services[i].chars.contains(PHILIPS_VENDOR_FF01);
            assert(i < before.len());
            assert(has(before[i]));
        }
    }
}

/// The remote is written to only after the subscription, where there is something to
/// subscribe to, and waited for last.
pub proof fn lemma_handshake_order(scan: VendorScan)
    ensures
        scan.ff01 is None ==> scan.steps() == Seq::<HandshakeStep>::empty(),
        scan.ff01 matches Some(ff01) ==> {
            let steps = scan.steps();
            &&& steps.last() == HandshakeStep::Pause(HANDSHAKE_DELAY_MS)
            &&& steps[steps.len() - 2] == HandshakeStep::Write(ff01)
            &&& scan.ff02 matches Some(ff02) ==> steps[0] == HandshakeStep::Subscribe(ff02)
        },
{
}

/// A characteristic whose notifications a session listens to. They are acquired for the
/// session alone.
#[derive(Debug, Clone, Copy, PartialEq, Eq, Structural)]
pub enum NotifyChar {
    Ctl,
    Rx,
}

impl NotifyChar {
    pub open spec fn failure_text(self) -> Seq<char> {
        match self {
            NotifyChar::Ctl => "Failed to acquire exclusive CTL notifications. Another ATVVoice instance may be connected to this device."@,
            NotifyChar::Rx => "Failed to acquire exclusive RX notifications. Another ATVVoice instance may be connected to this device."@,
        }
    }

    /// What is said where the notifications cannot be acquired.
    pub fn failure(&self) -> (r: &'static str)
        ensures
            r@ == self.failure_text(),
    {
        match self {
            NotifyChar::Ctl => "Failed to acquire exclusive CTL notifications. Another ATVVoice instance may be connected to this device.",
            NotifyChar::Rx => "Failed to acquire exclusive RX notifications. Another ATVVoice instance may be connected to this device.",
        }
    }
}

/// What a change of a device's `Connected` property means for the session.
pub fn connection_event(connected: bool) -> (r: Option<DeviceConnectionEvent>)
    ensures
        r == (if connected {
            None
        } else {
            Some(DeviceConnectionEvent::Disconnected)
        }),
{
    if connected {
        None
    } else {
        Some(DeviceConnectionEvent::Disconnected)
    }
}

/// How an address is written, in characters: for each byte the digit of its sixteens and the
/// digit of its ones, with a colon between bytes. Digits are `0` to `9` and then `A` to `F`.
pub proof fn lemma_address_characters(bytes: Seq<u8>, k: int)
    requires
        0 <= k < 6,
    ensures
        address_text(bytes).len() == 17,
        k < 5 ==> address_text(bytes)[3 * k + 2] == ':',
        ({
            let digit = |c: char|
                if c as int >= 65 {
                    c as int - 55
                } else {
                    c as int - 48
                };
            let high = address_text(bytes)[3 * k];
            let low = address_text(bytes)[3 * k + 1];
            &&& 48 <= high as int <= 57 || 65 <= high as int <= 70
            &&& 48 <= low as int <= 57 || 65 <= low as int <= 70
            &&& 16 * digit(high) + digit(low) == bytes[k]
        }),
{
    let b = bytes[k];
    assert(b / 16 < 16 && b % 16 < 16);
    assert(16 * (b / 16) + b % 16 == b);
}

/// Excluding an address keeps the others in their places and adds it at the end, unless it was
/// there.
pub proof fn lemma_exclusions_in_order(excluded: Seq<Address>, addr: Address)
    ensures
        with_excluded(excluded, addr).contains(addr),
        with_excluded(excluded, addr).take(excluded.len() as int) == excluded,
        excluded.contains(addr) ==> with_excluded(excluded, addr).len() == excluded.len(),
        !excluded.contains(addr) ==> with_excluded(excluded, addr).len() == excluded.len() + 1,
{
    let after = with_excluded(excluded, addr);
    assert(after.take(excluded.len() as int) =~= excluded);
    if !excluded.contains(addr) {
        assert(after[excluded.len() as int] == addr);
    }
}

/// Where the search stops next. A known device that is neither excluded nor ruled out by the
/// filter is reached: the search stops at it, or at another such device before it. Where there
/// is none, it is through.
pub proof fn lemma_search_reaches_wanted(search: DeviceSearch, k: int)
    requires
        search.next <= k < search.known@.len(),
    ensures
        ({
            let known = search.known@;
            let at = search.upcoming();
            let wanted = |addr: Address|
                !search.excluded@.contains(addr) && (search.filter_addr is None
                    || search.filter_addr == Some(addr));
            &&& search.next <= at <= known.len()
            &&& at < known.len() ==> wanted(known[at])
            &&& wanted(known[k]) ==> at <= k
        }),
{
    lemma_search_misses_none(
        search.known@,
        search.filter_addr,
        search.excluded@,
        search.next as int,
    );
}

/// What one more service adds to the search for the vendor characteristics. A search that has
/// found the write characteristic stays as it is, and so does one that meets the ATVV service.
/// Otherwise the last place of each characteristic in the service counts, and what the service
/// lacks stays where it was found before, if it was.
pub proof fn lemma_vendor_scan_step(
    scan: VendorScan,
    index: usize,
    service: ServiceView,
    k: int,
)
    requires
        service.chars.len() <= usize::MAX,
        0 <= k < service.chars.len(),
    ensures
        ({
            let after = scan.after(index, service);
            let looked = scan.ff01 is None && service.uuid != ATVV_SERVICE;
            &&& !looked ==> after == scan
            &&& looked && !service.chars.contains(PHILIPS_VENDOR_FF01) ==> after.ff01 is None
            &&& looked && !service.chars.contains(PHILIPS_VENDOR_FF02) ==> after.ff02 == scan.ff02
            &&& looked && service.chars[k] == PHILIPS_VENDOR_FF01 ==> {
                &&& after.ff01 matches Some(place) && place.service == index && k <= place.char
                    < service.chars.len() && service.chars[place.char as int] == PHILIPS_VENDOR_FF01
            }
            &&& looked && service.chars[k] == PHILIPS_VENDOR_FF02 ==> {
                &&& after.ff02 matches Some(place) && place.service == index && k <= place.char
                    < service.chars.len() && service.chars[place.char as int] == PHILIPS_VENDOR_FF02
            }
        }),
{
    lemma_last_index(service.chars, PHILIPS_VENDOR_FF01);
    lemma_last_index(service.chars, PHILIPS_VENDOR_FF02);
}

/// A service without characteristics adds nothing, and a search starts with nothing.
pub proof fn lemma_vendor_scan_starts_empty(scan: VendorScan, index: usize, uuid: u128)
    ensures
        scan.after(index, ServiceView { uuid, chars: seq![] }) == scan,
        VendorScan::start().ff01 is None,
        VendorScan::start().ff02 is None,
        VendorScan::over(seq![]) == VendorScan::start(),
{
}

/// A search through services goes through them one after the other.
pub proof fn lemma_vendor_scan_goes_on(services: Seq<ServiceView>, next: ServiceView)
    requires
        services.len() < usize::MAX,
    ensures
        VendorScan::over(services.push(next)) == VendorScan::over(services).after(
            services.len() as usize,
            next,
        ),
{
    assert(services.push(next).drop_last() =~= services);
}

/// The steps of the handshake, one by one: none without the write characteristic, and else a
/// subscription where there is something to subscribe to, the write, and half a second of
/// rest.
pub proof fn lemma_handshake_steps(ff01: CharPlace, ff02: CharPlace, other: Option<CharPlace>)
    ensures
        (VendorScan { ff01: None, ff02: other }).steps().len() == 0,
        (VendorScan { ff01: Some(ff01), ff02: None }).steps() == seq![
            HandshakeStep::Write(ff01),
            HandshakeStep::Pause(500),
        ],
        (VendorScan { ff01: Some(ff01), ff02: Some(ff02) }).steps() == seq![
            HandshakeStep::Subscribe(ff02),
            HandshakeStep::Write(ff01),
            HandshakeStep::Pause(500),
        ],
{
}

/// The UUIDs of the ATVV service and its characteristics differ in their first field only, by
/// their number there, and those of the two vendor characteristics in their last place.
pub proof fn lemma_uuids()
    ensures
        ATVV_SERVICE == 0xab5e0001_5a21_4f05_bc7d_af01f617b664,
        ATVV_CHAR_TX == ATVV_SERVICE + 0x1_0000_0000_0000_0000_0000_0000,
        ATVV_CHAR_RX == ATVV_SERVICE + 0x2_0000_0000_0000_0000_0000_0000,
        ATVV_CHAR_CTL == ATVV_SERVICE + 0x3_0000_0000_0000_0000_0000_0000,
        PHILIPS_VENDOR_FF01 == 0x02f00000_0000_0000_0000_00000000ff01,
        PHILIPS_VENDOR_FF02 == PHILIPS_VENDOR_FF01 + 1,
{
}

} // verus!
