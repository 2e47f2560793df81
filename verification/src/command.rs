//! The helper invocations the tool performs, as plain argument vectors.
//!
//! The caller resolves the executables' paths, spawns what is built here
//! through the process supervisor's command line, and performs the
//! downloads and unpacking.

use vstd::prelude::*;
use crate::error::Error;

verus! {

/// Where the released manager build is fetched from, and the directory under
/// the tool's root it is unpacked into.  The caller downloads the archive
/// and extracts it there.
pub fn install_irony() -> (r: (String, String))
    ensures
        r.0@ == "https://github.com/bcssov/IronyModManager/releases/latest/download/win-x64.zip"@,
        r.1@ == "irony"@,
{
    (
        "https://github.com/bcssov/IronyModManager/releases/latest/download/win-x64.zip".to_owned(),
        "irony".to_owned(),
    )
}

/// The invocation that opens the manager GUI in a detached console window.
/// The caller spawns it and waits; the spawned command returns at once.
pub fn launch_irony(irony_exe: &String) -> (args: Vec<String>)
    ensures
        args@.len() == 4,
        args@[0]@ == "cmd"@,
        args@[1]@ == "/C"@,
        args@[2]@ == "start"@,
        args@[3]@ == irony_exe@,
{
    let mut args: Vec<String> = Vec::new();
    args.push("cmd".to_owned());
    args.push("/C".to_owned());
    args.push("start".to_owned());
    args.push(irony_exe.clone());
    args
}

/// The download helper may only be driven once it is installed; the caller
/// reports whether the helper executable is present.
pub fn ensure_init(steamcmd_installed: bool) -> (r: Result<(), Error>)
    ensures
        steamcmd_installed <==> r matches Ok(_),
        !steamcmd_installed ==> r matches Err(Error::NotInitialised()),
{
    if !steamcmd_installed {
        Err(Error::NotInitialised())
    } else {
        Ok(())
    }
}

/// The helper invocation that downloads one workshop item: anonymous login,
/// one download command naming the application and the item, then quit.
/// Fails if the helper is not installed.
pub fn download_workshop_item(
    steamcmd_exe: &String,
    workshop_item_id: &String,
    steamcmd_installed: bool,
) -> (r: Result<Vec<String>, Error>)
    ensures
        !steamcmd_installed ==> r matches Err(Error::NotInitialised()),
        steamcmd_installed ==> (r matches Ok(args) && args@.len() == 4 && args@[0]@
            == steamcmd_exe@ && args@[1]@ == "+login anonymous"@ && args@[2]@
            == "+workshop_download_item 281990 "@ + workshop_item_id@ && args@[3]@ == "+quit"@),
{
    match ensure_init(steamcmd_installed) {
        Err(e) => Err(e),
        Ok(_) => {
            let mut download_cmd = "+workshop_download_item 281990 ".to_owned();
            download_cmd.append(workshop_item_id.as_str());
            let mut args: Vec<String> = Vec::new();
            args.push(steamcmd_exe.clone());
            args.push("+login anonymous".to_owned());
            args.push(download_cmd);
            args.push("+quit".to_owned());
            Ok(args)
        },
    }
}

} // verus!
