//! The volumes tab: its state and the form that creates a volume.
use vstd::prelude::*;
use vstd::string::*;

use crate::app::containers::optional_text;
use crate::app::networks::optional_pairs;
use crate::event::VolumeCreateOptions;
use crate::text::clone_pairs;

verus! {

#[derive(Clone, Copy, Debug, PartialEq, Eq, Structural)]
pub enum CentralView {
    Volume,
    Create,
    /// The main view, with no volume shown.
    Main,
}

impl Default for CentralView {
    fn default() -> (r: Self)
        ensures
            r == CentralView::Main,
    {
        CentralView::Main
    }
}

/// The form that creates a volume.
#[derive(Debug)]
pub struct CreateViewData {
    pub name: String,
    pub driver: String,
    pub driver_opts: Vec<(String, String)>,
    pub opts: Vec<(String, String)>,
    pub labels: Vec<(String, String)>,
}

impl Default for CreateViewData {
    /// A volume of the `local` driver, with nothing else set.
    fn default() -> (r: Self)
        ensures
            r.name@ == Seq::<char>::empty(),
            r.driver@ == "local"@,
            r.driver_opts@.len() == 0,
            r.opts@.len() == 0,
            r.labels@.len() == 0,
    {
        CreateViewData {
            name: String::new(),
            driver: String::from_str("local"),
            driver_opts: Vec::new(),
            opts: Vec::new(),
            labels: Vec::new(),
        }
    }
}

/// The options of the volume that the form describes. The name, the driver
/// and the labels are left out where they are empty; the driver options are
/// given exactly where the volume is named.
pub fn create_volume(data: &CreateViewData) -> (r: VolumeCreateOptions)
    ensures
        optional_text(data.name, r.name),
        optional_text(data.driver, r.driver),
        optional_pairs(data.labels@, r.labels),
        match r.driver_opts {
            Some(o) => data.name@.len() > 0 && o@ == data.driver_opts@,
            None => data.name@.len() == 0,
        },
{
    let named = data.name.as_str().unicode_len() != 0;
    VolumeCreateOptions {
        name: if named {
            Some(data.name.clone())
        } else {
            None
        },
        driver: if data.driver.as_str().unicode_len() == 0 {
            None
        } else {
            Some(data.driver.clone())
        },
        labels: if data.labels.len() == 0 {
            None
        } else {
            Some(clone_pairs(&data.labels))
        },
        driver_opts: if named {
            Some(clone_pairs(&data.driver_opts))
        } else {
            None
        },
    }
}

/// The state of the volumes tab; `L` is the list of volumes that the engine
/// gives, `V` one volume.
#[derive(Debug)]
pub struct VolumesTab<L, V> {
    pub volumes: Option<L>,
    pub current_volume: Option<V>,
    pub central_view: CentralView,
    pub create_view_data: CreateViewData,
}

impl<L, V> VolumesTab<L, V> {
    pub fn new() -> (r: Self)
        ensures
            r.volumes is None,
            r.current_volume is None,
            r.central_view == CentralView::Main,
            r.create_view_data.driver@ == "local"@,
    {
        VolumesTab {
            volumes: None,
            current_volume: None,
            central_view: CentralView::default(),
            create_view_data: CreateViewData::default(),
        }
    }
}

} // verus!
