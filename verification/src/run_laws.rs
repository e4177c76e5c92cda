//! What running a project's VM comes to.
use vstd::prelude::*;
use vstd::string::*;

use crate::project_vm::{
    after, is_outdated, stand, Locked, Metadata, MetadataView, Progress, RunFault, Told, Want,
};

verus! {

/// A VM is outdated exactly if it was cloned from a base image of a revision
/// before the fifth, or of one that was not recorded.
pub proof fn law_outdated(m: MetadataView)
    ensures
        is_outdated(m) <==> m.base_revision is None || m.base_revision->0 < 5,
{
}

/// Whether a VM can be run as chosen: it was cloned from a current base image,
/// of the chosen name if one is chosen.
pub open spec fn runnable(m: MetadataView, chosen: Option<Seq<char>>) -> bool {
    &&& m.base_revision is Some && m.base_revision->0 >= 5
    &&& chosen is Some ==> m.image == chosen->0
}

/// A project without a VM gets one from a current base image, step by step:
/// disk, EFI variables and record are made before it is put in its place. It
/// is then run like any other.
pub proof fn law_new_vm(chosen: Option<Seq<char>>, revision: Option<u32>)
    requires
        revision is Some && revision->0 >= 5,
    ensures
        ({
            let news = seq![
                Told::Looked(false),
                Told::Base(true, revision),
                Told::Cleared,
                Told::DiskCloned,
                Told::EfiCloned,
                Told::Recorded,
                Told::Renamed,
            ];
            &&& stand(chosen, news, 0) == Progress::Next(Want::Look)
            &&& stand(chosen, news, 1) == Progress::Next(Want::Base)
            &&& stand(chosen, news, 2) == Progress::Next(Want::Clear)
            &&& stand(chosen, news, 3) == Progress::Next(Want::CloneDisk)
            &&& stand(chosen, news, 4) == Progress::Next(Want::CloneEfi)
            &&& stand(chosen, news, 5) == Progress::Next(Want::Record)
            &&& stand(chosen, news, 6) == Progress::Next(Want::Rename)
            &&& stand(chosen, news, 7) == Progress::Next(Want::Metadata)
        }),
{
    reveal_with_fuel(stand, 8);
}

/// Without a base image, or with an outdated one, no VM is created.
pub proof fn law_no_vm_without_base(chosen: Option<Seq<char>>, there: bool, revision: Option<u32>)
    requires
        !there || revision is None || revision->0 < 5,
    ensures
        ({
            let news = seq![Told::Looked(false), Told::Base(there, revision)];
            stand(chosen, news, 2) == Progress::Failed(
                if there {
                    RunFault::OldBase
                } else {
                    RunFault::NoBase
                },
            )
        }),
{
    reveal_with_fuel(stand, 3);
}

/// A VM that is there is booted if it can be run as chosen and nobody else has
/// it locked, and the run is over when it has stopped. Otherwise it says what
/// is wrong: it is outdated, made from another image, or running already.
pub proof fn law_existing_vm(chosen: Option<Seq<char>>, m: Metadata, locked: Locked)
    ensures
        ({
            let news = seq![
                Told::Looked(true),
                Told::Metadata(m),
                Told::Locked(locked),
                Told::Stopped,
            ];
            let old_base = m@.base_revision is None || m@.base_revision->0 < 5;
            &&& stand(chosen, news, 1) == Progress::Next(Want::Metadata)
            &&& old_base ==> stand(chosen, news, 2) == Progress::Failed(RunFault::OldVm)
            &&& !old_base && !runnable(m@, chosen) ==> stand(chosen, news, 2) == Progress::Failed(
                RunFault::OtherImage,
            )
            &&& runnable(m@, chosen) ==> {
                &&& stand(chosen, news, 2) == Progress::Next(Want::Lock)
                &&& locked is Busy ==> stand(chosen, news, 3) == Progress::Failed(RunFault::Busy)
                &&& locked is Yes ==> stand(chosen, news, 3) == Progress::Next(Want::Boot)
                    && stand(chosen, news, 4) == Progress::Done
            }
        }),
{
    reveal_with_fuel(stand, 5);
}

/// Whether `told` says what became of `want`.
pub open spec fn answers(want: Want, told: Told) -> bool {
    match want {
        Want::Look => told is Looked,
        Want::Base => told is Base,
        Want::Clear => told is Cleared,
        Want::CloneDisk => told is DiskCloned,
        Want::CloneEfi => told is EfiCloned,
        Want::Record => told is Recorded,
        Want::Rename => told is Renamed,
        Want::Metadata => told is Metadata,
        Want::Lock => told is Locked,
        Want::Boot => told is Stopped,
    }
}

/// Running a VM goes on exactly when what was asked for is told.
pub proof fn law_only_answers_count(want: Want, chosen: Option<Seq<char>>, told: Told)
    ensures
        after(want, chosen, told) == Progress::Next(want) <==> !answers(want, told),
{
}

} // verus!
