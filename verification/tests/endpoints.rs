use mev_broadcast::address::InvalidEndpointError;
use mev_broadcast::endpoints::{Endpoint, EndpointSpec, Endpoints, EndpointsBuilder};
use std::rc::Rc;

fn urls<C>(endpoints: &Endpoints<C>) -> Vec<String> {
    let mut urls = Vec::new();
    let mut i = 0;
    while let Some(endpoint) = endpoints.get(i) {
        urls.push(endpoint.url().to_string());
        i += 1;
    }
    urls
}

#[test]
fn builder_keeps_the_order_of_addition() {
    let endpoints = EndpointsBuilder::new(Some(1u32))
        .add(EndpointSpec::Address("http://a"))
        .unwrap()
        .add(EndpointSpec::Address("http://b"))
        .unwrap()
        .add(EndpointSpec::Address("http://c"))
        .unwrap()
        .finish();
    assert_eq!(endpoints.len(), 3);
    assert!(!endpoints.is_empty());
    assert_eq!(urls(&endpoints), vec!["http://a/", "http://b/", "http://c/"]);
}

#[test]
fn builder_without_additions_makes_an_empty_collection() {
    let endpoints = EndpointsBuilder::new(Some(1u32)).finish();
    assert_eq!(endpoints.len(), 0);
    assert!(endpoints.is_empty());
    assert!(endpoints.get(0).is_none());
}

#[test]
fn builder_counts_what_was_added() {
    let builder = EndpointsBuilder::new(Some(1u32));
    assert_eq!(builder.len(), 0);
    let builder = builder.add(EndpointSpec::Address("https://a")).unwrap();
    assert_eq!(builder.len(), 1);
    let builder = builder.add(EndpointSpec::Address("https://b")).unwrap();
    assert_eq!(builder.len(), 2);
}

#[test]
fn builder_keeps_duplicates() {
    let endpoints = EndpointsBuilder::new(Some(1u32))
        .add(EndpointSpec::Address("http://a"))
        .unwrap()
        .add(EndpointSpec::Address("http://a"))
        .unwrap()
        .add(EndpointSpec::Address("HTTP://A/"))
        .unwrap()
        .finish();
    assert_eq!(urls(&endpoints), vec!["http://a/", "http://a/", "http://a/"]);
}

#[test]
fn address_endpoints_go_through_the_default_transport() {
    let endpoints = EndpointsBuilder::new(Some(42u32))
        .add(EndpointSpec::Address("http://a"))
        .unwrap()
        .add(EndpointSpec::Address("http://b"))
        .unwrap()
        .finish();
    assert_eq!(*endpoints.get(0).unwrap().client(), 42);
    assert_eq!(*endpoints.get(1).unwrap().client(), 42);
}

#[test]
fn each_address_endpoint_holds_its_own_copy_of_the_default_transport() {
    let transport = Rc::new(());
    let builder = EndpointsBuilder::new(Some(transport.clone()));
    assert_eq!(Rc::strong_count(&transport), 2);
    let builder = builder.add(EndpointSpec::Address("http://a")).unwrap();
    assert_eq!(Rc::strong_count(&transport), 3);
    let builder = builder.add(EndpointSpec::Address("http://b")).unwrap();
    assert_eq!(Rc::strong_count(&transport), 4);
    let endpoints = builder.finish();
    assert_eq!(Rc::strong_count(&transport), 3);
    assert!(Rc::ptr_eq(endpoints.get(0).unwrap().client(), &transport));
    assert!(Rc::ptr_eq(endpoints.get(1).unwrap().client(), &transport));
}

#[test]
fn transport_handles_keep_their_own_transport() {
    let handle = Endpoint::new(9u32, "https://own.example.org").unwrap();
    let endpoints = EndpointsBuilder::new(Some(1u32))
        .add(EndpointSpec::Address("http://a"))
        .unwrap()
        .add(EndpointSpec::Transport(handle))
        .unwrap()
        .finish();
    assert_eq!(*endpoints.get(0).unwrap().client(), 1);
    assert_eq!(*endpoints.get(1).unwrap().client(), 9);
    assert_eq!(endpoints.get(1).unwrap().url(), "https://own.example.org/");
}

#[test]
fn transport_handles_need_no_default_transport() {
    let handle = Endpoint::new(9u32, "http://own").unwrap();
    let endpoints = EndpointsBuilder::new(None).add(EndpointSpec::Transport(handle)).unwrap().finish();
    assert_eq!(endpoints.len(), 1);
    assert_eq!(endpoints.get(0).unwrap().url(), "http://own/");
}

#[test]
fn address_without_default_transport_is_rejected() {
    let r = EndpointsBuilder::<u32>::new(None).add(EndpointSpec::Address("http://a"));
    assert_eq!(r.unwrap_err(), InvalidEndpointError::NoTransport);
}

#[test]
fn malformed_address_is_rejected() {
    let r = EndpointsBuilder::new(Some(1u32)).add(EndpointSpec::Address("not a url"));
    assert_eq!(r.unwrap_err(), InvalidEndpointError::Malformed);
}

#[test]
fn unsupported_scheme_is_rejected() {
    let r = EndpointsBuilder::new(Some(1u32)).add(EndpointSpec::Address("ftp://a"));
    assert_eq!(r.unwrap_err(), InvalidEndpointError::UnsupportedScheme);
}

#[test]
fn the_address_is_judged_before_the_transport() {
    let r = EndpointsBuilder::<u32>::new(None).add(EndpointSpec::Address("not a url"));
    assert_eq!(r.unwrap_err(), InvalidEndpointError::Malformed);
    let r = EndpointsBuilder::<u32>::new(None).add(EndpointSpec::Address("ws://a"));
    assert_eq!(r.unwrap_err(), InvalidEndpointError::UnsupportedScheme);
}

#[test]
fn endpoint_new_resolves_the_address() {
    let endpoint = Endpoint::new("client", "HTTP://Relay.Example.ORG").unwrap();
    assert_eq!(endpoint.url(), "http://relay.example.org/");
    assert_eq!(*endpoint.client(), "client");
    assert_eq!(Endpoint::new(1u8, "relay").unwrap_err(), InvalidEndpointError::Malformed);
    assert_eq!(Endpoint::new(1u8, "ipc:///tmp/x").unwrap_err(), InvalidEndpointError::UnsupportedScheme);
}

#[test]
fn get_reaches_every_position_and_no_further() {
    let endpoints = EndpointsBuilder::new(Some(1u32))
        .add(EndpointSpec::Address("http://a"))
        .unwrap()
        .add(EndpointSpec::Address("http://b"))
        .unwrap()
        .finish();
    assert_eq!(endpoints.get(0).unwrap().url(), "http://a/");
    assert_eq!(endpoints.get(1).unwrap().url(), "http://b/");
    assert!(endpoints.get(2).is_none());
    assert!(endpoints.get(usize::MAX).is_none());
}
