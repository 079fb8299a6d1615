use vstd::prelude::*;

verus! {

/// The name of a wireless network, usually human readable.
#[derive(Debug, PartialEq, Eq, PartialOrd, Ord, Hash)]
pub struct Ssid(pub String);

impl View for Ssid {
    type V = Seq<char>;

    open spec fn view(&self) -> Seq<char> {
        self.0@
    }
}

impl Clone for Ssid {
    fn clone(&self) -> (res: Self)
        ensures
            res == *self,
    {
        Ssid(self.0.clone())
    }
}

/// The identifier (UUID) under which the network manager stores a connection profile.
#[derive(Debug, PartialEq, Eq, PartialOrd, Ord)]
pub struct NetworkId(pub String);

impl View for NetworkId {
    type V = Seq<char>;

    open spec fn view(&self) -> Seq<char> {
        self.0@
    }
}

impl Clone for NetworkId {
    fn clone(&self) -> (res: Self)
        ensures
            res == *self,
    {
        NetworkId(self.0.clone())
    }
}

/// A pre-shared key (the password of a network).
#[derive(Debug)]
pub struct Psk(pub String);

impl View for Psk {
    type V = Seq<char>;

    open spec fn view(&self) -> Seq<char> {
        self.0@
    }
}

impl Clone for Psk {
    fn clone(&self) -> (res: Self)
        ensures
            res == *self,
    {
        Psk(self.0.clone())
    }
}

/// A signal strength is a number between 0 and 100; the absence of a reading is 0,
/// since there is no signal.
#[derive(Clone, Copy, Debug, PartialEq, Eq, PartialOrd, Ord, Hash, Structural)]
pub struct SignalStrength(pub u8);

/// The strength that a reading of `reading` stands for: none is 0, and anything at or
/// above 100 is 100.
pub open spec fn clamp_strength(reading: Option<u8>) -> u8 {
    match reading {
        None => 0,
        Some(x) => if x >= 100 { 100 } else { x },
    }
}

impl SignalStrength {
    pub fn new(size: Option<u8>) -> (res: Self)
        ensures
            res.0 == clamp_strength(size),
            res.0 <= 100,
    {
        let size = match size {
            None => return SignalStrength(0),
            Some(x) => x,
        };
        if size >= 100 {
            return SignalStrength(100);
        }
        SignalStrength(size)
    }
}

impl Default for SignalStrength {
    fn default() -> (res: Self)
        ensures
            res.0 == 0,
    {
        SignalStrength(0)
    }
}

/// What a scan of the air reports of one network.
#[derive(Debug)]
pub struct WifiListInfo {
    pub strength: SignalStrength,
    pub security: Vec<String>,
}

/// One network that can be seen but has no stored connection profile.
#[derive(Debug)]
pub struct WifiListOut {
    pub ssid: Ssid,
    pub strength: SignalStrength,
    pub security: Vec<String>,
}

/// The failures of the wifi operations.
#[derive(Debug, PartialEq, Eq)]
pub enum WifiError {
    /// An SSID holds a character outside ASCII.
    SsidNotAscii,
    /// A password holds a character outside ASCII.
    PasswordNotAscii,
    /// No stored connection profile carries the SSID.
    SsidNotFound,
    /// Deleting the network that carries the only connection would make the device unreachable.
    DeleteWouldDisconnect,
    /// The regulatory report has no line that mentions a country.
    NoCountryLine,
    /// The first line that mentions a country does not name one.
    NoCountryMatch,
    /// The text is no ISO 3166-1 alpha-2 country code.
    InvalidCountryCode(String),
    /// A command printed bytes that are no UTF-8 text.
    InvalidUtf8,
    /// A command could not be run or failed; the text says how.
    CommandFailed(String),
}

/// A program to run with its arguments.
#[derive(Debug)]
pub struct CommandLine {
    pub program: String,
    pub args: Vec<String>,
}

/// The text of each string in a sequence.
pub open spec fn texts(v: Seq<String>) -> Seq<Seq<char>> {
    v.map_values(|s: String| s@)
}

impl View for CommandLine {
    type V = (Seq<char>, Seq<Seq<char>>);

    open spec fn view(&self) -> (Seq<char>, Seq<Seq<char>>) {
        (self.program@, texts(self.args@))
    }
}

} // verus!
