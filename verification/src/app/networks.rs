//! The networks tab: its state and the form that creates a network.
use vstd::prelude::*;
use vstd::string::*;

use crate::app::containers::optional_text;
use crate::event::{IpamOptions, NetworkCreateOptions};
use crate::text::clone_pairs;

verus! {

#[derive(Clone, Copy, Debug, PartialEq, Eq, Structural)]
pub enum CentralView {
    Network,
    Create,
    /// The main view, with no network shown.
    Main,
}

impl Default for CentralView {
    fn default() -> (r: Self)
        ensures
            r == CentralView::Main,
    {
        CentralView::Main
    }
}

/// The form that creates a network.
#[derive(Debug)]
pub struct CreateViewData {
    pub name: String,
    pub driver: String,
    pub internal: bool,
    pub attachable: bool,
    pub ingress: bool,
    pub enable_ipv6: bool,
    pub opts: Vec<(String, String)>,
    pub labels: Vec<(String, String)>,
    pub ipam_driver: String,
    pub ipam_opts: Vec<(String, String)>,
    pub ipam_config: Vec<Vec<(String, String)>>,
}

impl Default for CreateViewData {
    /// A bridge network that containers may attach to, with nothing else set.
    fn default() -> (r: Self)
        ensures
            r.name@ == Seq::<char>::empty(),
            r.driver@ == "bridge"@,
            !r.internal,
            r.attachable,
            !r.ingress,
            !r.enable_ipv6,
            r.opts@.len() == 0,
            r.labels@.len() == 0,
            r.ipam_driver@ == Seq::<char>::empty(),
            r.ipam_opts@.len() == 0,
            r.ipam_config@.len() == 0,
    {
        CreateViewData {
            driver: String::from_str("bridge"),
            name: String::new(),
            internal: false,
            attachable: true,
            ingress: false,
            enable_ipv6: false,
            opts: Vec::new(),
            labels: Vec::new(),
            ipam_driver: String::new(),
            ipam_opts: Vec::new(),
            ipam_config: Vec::new(),
        }
    }
}

/// A list of pairs as an option: `None` where it is empty.
pub open spec fn optional_pairs(
    pairs: Seq<(String, String)>,
    opt: Option<Vec<(String, String)>>,
) -> bool {
    match opt {
        Some(v) => pairs.len() > 0 && v@ == pairs,
        None => pairs.len() == 0,
    }
}

fn optional_list(pairs: &Vec<(String, String)>) -> (r: Option<Vec<(String, String)>>)
    ensures
        optional_pairs(pairs@, r),
{
    if pairs.len() == 0 {
        None
    } else {
        Some(clone_pairs(pairs))
    }
}

/// The IP address management of a network is set where its driver, its
/// options or its configs are given.
pub open spec fn sets_ipam(data: &CreateViewData) -> bool {
    data.ipam_driver@.len() > 0 || data.ipam_opts@.len() > 0 || data.ipam_config@.len() > 0
}

/// The lists of pairs, each as a sequence.
pub open spec fn configs_view(c: Seq<Vec<(String, String)>>) -> Seq<Seq<(String, String)>> {
    c.map_values(|v: Vec<(String, String)>| v@)
}

/// The message of the error shown for a network without a name.
pub open spec fn unnamed_network_message() -> Seq<char> {
    "cannot create a network without a name"@
}

/// The options of the network that the form describes; an error where it has
/// no name. Empty texts and lists are left out, and IP address management is
/// set only where one of its parts is given.
pub fn create_network(data: &CreateViewData) -> (r: Result<NetworkCreateOptions, &'static str>)
    ensures
        data.name@.len() == 0 <==> r is Err,
        r matches Err(e) ==> e@ == unnamed_network_message(),
        r matches Ok(o) ==> {
            &&& o.name@ == data.name@
            &&& optional_text(data.driver, o.driver)
            &&& optional_pairs(data.labels@, o.labels)
            &&& optional_pairs(data.opts@, o.options)
            &&& o.attachable == data.attachable
            &&& o.internal == data.internal
            &&& o.ingress == data.ingress
            &&& o.enable_ipv6 == data.enable_ipv6
            &&& match o.ipam {
                Some(ipam) => {
                    &&& sets_ipam(data)
                    &&& optional_text(data.ipam_driver, ipam.driver)
                    &&& optional_pairs(data.ipam_opts@, ipam.options)
                    &&& match ipam.config {
                        Some(c) => data.ipam_config@.len() > 0 && configs_view(c@) == configs_view(
                            data.ipam_config@,
                        ),
                        None => data.ipam_config@.len() == 0,
                    }
                },
                None => !sets_ipam(data),
            }
        },
{
    if data.name.as_str().unicode_len() == 0 {
        return Err("cannot create a network without a name");
    }
    let driver = if data.driver.as_str().unicode_len() == 0 {
        None
    } else {
        Some(data.driver.clone())
    };
    let ipam_driver = if data.ipam_driver.as_str().unicode_len() == 0 {
        None
    } else {
        Some(data.ipam_driver.clone())
    };
    let config = if data.ipam_config.len() == 0 {
        None
    } else {
        let mut c: Vec<Vec<(String, String)>> = Vec::new();
        let mut i: usize = 0;
        while i < data.ipam_config.len()
            invariant
                i <= data.ipam_config@.len(),
                configs_view(c@) == configs_view(data.ipam_config@.take(i as int)),
            decreases data.ipam_config@.len() - i,
        {
            let ghost c0 = c@;
            let one = clone_pairs(&data.ipam_config[i]);
            assert(one@ == data.ipam_config@[i as int]@);
            c.push(one);
            assert(configs_view(c@) =~= configs_view(c0).push(one@));
            assert(data.ipam_config@.take(i as int + 1) =~= data.ipam_config@.take(i as int).push(
                data.ipam_config@[i as int],
            ));
            assert(configs_view(c@) =~= configs_view(data.ipam_config@.take(i as int + 1)));
            i = i + 1;
        }
        assert(data.ipam_config@.take(i as int) =~= data.ipam_config@);
        Some(c)
    };
    let options = optional_list(&data.ipam_opts);
    let set_ipam = ipam_driver.is_some() || options.is_some() || config.is_some();
    let ipam = if set_ipam {
        Some(IpamOptions { driver: ipam_driver, options, config })
    } else {
        None
    };
    Ok(
        NetworkCreateOptions {
            name: data.name.clone(),
            driver,
            labels: optional_list(&data.labels),
            options: optional_list(&data.opts),
            ipam,
            attachable: data.attachable,
            internal: data.internal,
            ingress: data.ingress,
            enable_ipv6: data.enable_ipv6,
        },
    )
}

/// The state of the networks tab; `N` is a network of the list.
#[derive(Debug)]
pub struct NetworksTab<N> {
    pub networks: Vec<N>,
    pub current_network: Option<N>,
    pub central_view: CentralView,
    pub create_view_data: CreateViewData,
}

impl<N> NetworksTab<N> {
    pub fn new() -> (r: Self)
        ensures
            r.networks@.len() == 0,
            r.current_network is None,
            r.central_view == CentralView::Main,
            r.create_view_data.driver@ == "bridge"@,
    {
        NetworksTab {
            networks: Vec::new(),
            current_network: None,
            central_view: CentralView::default(),
            create_view_data: CreateViewData::default(),
        }
    }
}

} // verus!
