//! Outcomes of installing or removing the virtual printer that feeds the
//! capture port. Running the system's printer tools is the caller's part.

use vstd::prelude::*;
use vstd::string::StringExecFns;

verus! {

/// Where the system offers no printer installation, installing reports so.
pub fn install_printer() -> (r: Result<(), String>)
    ensures
        r.is_err(),
        r.unwrap_err()@ == "Instalación de impresora solo soportada en Windows"@,
{
    Err(String::from_str("Instalación de impresora solo soportada en Windows"))
}

/// Where the system offers no printer installation, removing reports so.
pub fn uninstall_printer() -> (r: Result<(), String>)
    ensures
        r.is_err(),
        r.unwrap_err()@ == "Desinstalación de impresora solo soportada en Windows"@,
{
    Err(String::from_str("Desinstalación de impresora solo soportada en Windows"))
}

/// The outcome of running a setup script: success, or an error holding the
/// failure's title and what the script wrote to its two output streams.
pub fn setup_outcome(succeeded: bool, failure_title: &str, stdout: &str, stderr: &str) -> (r: Result<
    (),
    String,
>)
    ensures
        succeeded <==> r.is_ok(),
        !succeeded ==> r.unwrap_err()@ == failure_title@ + "\nSTDOUT:\n"@ + stdout@ + "\nSTDERR:\n"@
            + stderr@,
{
    if succeeded {
        Ok(())
    } else {
        let mut msg = String::from_str(failure_title);
        msg.append("\nSTDOUT:\n");
        msg.append(stdout);
        msg.append("\nSTDERR:\n");
        msg.append(stderr);
        Err(msg)
    }
}

} // verus!
