use dockeye::app::networks::{create_network, CreateViewData as NetworkForm, NetworksTab};
use dockeye::app::order::{newest_first, ListKey};
use dockeye::app::system::{
    container_size_totals, image_size_totals, more_to_load, short_command, shown_rows, SystemTab,
};
use dockeye::app::volumes::{create_volume, CreateViewData as VolumeForm};

#[test]
fn network_needs_a_name() {
    let d = NetworkForm::default();
    assert_eq!(d.driver, "bridge");
    assert!(d.attachable);
    assert_eq!(create_network(&d).unwrap_err(), "cannot create a network without a name");
}

#[test]
fn network_options() {
    let mut d = NetworkForm::default();
    d.name = "net".into();
    let o = create_network(&d).unwrap();
    assert_eq!(o.name, "net");
    assert_eq!(o.driver.as_deref(), Some("bridge"));
    assert!(o.labels.is_none() && o.options.is_none() && o.ipam.is_none());
    assert!(o.attachable && !o.internal && !o.ingress && !o.enable_ipv6);

    d.driver = String::new();
    d.labels = vec![("k".into(), "v".into())];
    d.ipam_config = vec![vec![("Subnet".into(), "10.0.0.0/24".into())]];
    let o = create_network(&d).unwrap();
    assert!(o.driver.is_none());
    assert_eq!(o.labels, Some(vec![("k".to_string(), "v".to_string())]));
    let ipam = o.ipam.unwrap();
    assert!(ipam.driver.is_none() && ipam.options.is_none());
    assert_eq!(ipam.config, Some(vec![vec![("Subnet".to_string(), "10.0.0.0/24".to_string())]]));

    let tab: NetworksTab<u8> = NetworksTab::new();
    assert!(tab.networks.is_empty());
}

#[test]
fn volume_options() {
    let mut d = VolumeForm::default();
    assert_eq!(d.driver, "local");
    let o = create_volume(&d);
    assert!(o.name.is_none() && o.labels.is_none() && o.driver_opts.is_none());
    assert_eq!(o.driver.as_deref(), Some("local"));
    d.name = "data".into();
    let o = create_volume(&d);
    assert_eq!(o.name.as_deref(), Some("data"));
    // named volumes always carry their driver options, even none
    assert_eq!(o.driver_opts, Some(vec![]));
}

fn key(secs: i64, nanos: u32, id: &str) -> ListKey {
    ListKey { created_secs: secs, created_nanos: nanos, id: id.into() }
}

#[test]
fn newest_first_then_by_id() {
    let keys = vec![
        key(10, 0, "b"),
        key(20, 0, "z"),
        key(10, 0, "a"),
        key(10, 5, "c"),
        key(10, 0, "a"),
    ];
    assert_eq!(newest_first(&keys), vec![1, 3, 2, 4, 0]);
    assert_eq!(newest_first(&vec![]), Vec::<usize>::new());
}

#[test]
fn ids_compare_by_characters() {
    let keys = vec![key(0, 0, "ab"), key(0, 0, "a"), key(0, 0, "é"), key(0, 0, "z")];
    assert_eq!(newest_first(&keys), vec![1, 0, 3, 2]);
}

#[test]
fn data_usage_tables() {
    assert_eq!(shown_rows(25, false), 10);
    assert_eq!(shown_rows(25, true), 25);
    assert_eq!(shown_rows(3, false), 3);
    assert!(more_to_load(11, false));
    assert!(!more_to_load(10, false));
    assert!(!more_to_load(11, true));
    assert_eq!(
        container_size_totals(&vec![(Some(10), Some(1)), (None, Some(2)), (Some(5), None)]),
        (3, 15, 3)
    );
    assert_eq!(short_command("echo"), "echo");
    assert_eq!(
        short_command("0123456789012345678901234567890123456789"),
        "01234567890123456789012345678901"
    );
    let tab: SystemTab<u8, u8, u8> = SystemTab::new();
    assert!(tab.events.is_empty());
}

#[test]
fn image_sizes_are_totalled() {
    assert_eq!(image_size_totals(&vec![]), (0, 0, 0, 0));
    assert_eq!(
        image_size_totals(&vec![(100, 10, 200), (50, -5, 70), (1, 0, 1)]),
        (3, 151, 5, 271)
    );
    let negative_first = vec![(-4, 0, 0), (6, 0, 0)];
    assert_eq!(image_size_totals(&negative_first), (2, 2, 0, 0));
}
