use vstd::prelude::*;
use vstd::utf8::is_ascii_chars;

use crate::model::{CommandLine, Psk, Ssid, WifiError};
use crate::procedure::{AddProcedure, AddView, ConnectProcedure, ConnectView, DeleteProcedure, DeleteView};
use crate::wpa::{Country, WpaCli};

verus! {

/// The group of wifi commands; it does nothing by itself.
pub fn wifi() -> (res: Result<(), WifiError>)
    ensures
        res is Ok,
{
    Ok(())
}

/// The group of commands on the networks in the air; it does nothing by itself.
pub fn available() -> (res: Result<(), WifiError>)
    ensures
        res is Ok,
{
    Ok(())
}

/// Checks a request to add a network and gives the procedure that adds it: SSID and
/// password must be ASCII.
pub fn add(ssid: String, password: String, priority: isize, connect: bool) -> (res: Result<
    AddProcedure,
    WifiError,
>)
    ensures
        !is_ascii_chars(ssid@) ==> res == Err::<AddProcedure, WifiError>(WifiError::SsidNotAscii),
        is_ascii_chars(ssid@) && !is_ascii_chars(password@) ==> res == Err::<
            AddProcedure,
            WifiError,
        >(WifiError::PasswordNotAscii),
        is_ascii_chars(ssid@) && is_ascii_chars(password@) ==> (res matches Ok(p) && p@
            == (AddView::Start { ssid: ssid@, psk: password@, connect })),
{
    if !ssid.as_str().is_ascii() {
        return Err(WifiError::SsidNotAscii);
    }
    if !password.as_str().is_ascii() {
        return Err(WifiError::PasswordNotAscii);
    }
    Ok(AddProcedure::Start { ssid: Ssid(ssid), psk: Psk(password), priority, connect })
}

/// Checks a request to connect to a network and gives the procedure that connects: the
/// SSID must be ASCII.
pub fn connect(ssid: String) -> (res: Result<ConnectProcedure, WifiError>)
    ensures
        !is_ascii_chars(ssid@) ==> res == Err::<ConnectProcedure, WifiError>(WifiError::SsidNotAscii),
        is_ascii_chars(ssid@) ==> (res matches Ok(p) && p@ == (ConnectView::Start { ssid: ssid@ })),
{
    if !ssid.as_str().is_ascii() {
        return Err(WifiError::SsidNotAscii);
    }
    Ok(ConnectProcedure::Start { ssid: Ssid(ssid) })
}

/// Checks a request to delete a network and gives the procedure that deletes it: the
/// SSID must be ASCII.
pub fn delete(ssid: String) -> (res: Result<DeleteProcedure, WifiError>)
    ensures
        !is_ascii_chars(ssid@) ==> res == Err::<DeleteProcedure, WifiError>(WifiError::SsidNotAscii),
        is_ascii_chars(ssid@) ==> (res matches Ok(p) && p@ == (DeleteView::Start { ssid: ssid@ })),
{
    if !ssid.as_str().is_ascii() {
        return Err(WifiError::SsidNotAscii);
    }
    Ok(DeleteProcedure::Start { ssid: Ssid(ssid) })
}

/// Sets the regulatory country to `country`.
pub fn set_country(cli: &WpaCli, country: &Country) -> (res: CommandLine)
    ensures
        res@ == ("iw"@, seq!["reg"@, "set"@, country@]),
{
    cli.set_country_low(country.alpha2())
}

} // verus!
