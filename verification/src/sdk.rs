//! Where the SDK loads its own code from.
use vstd::prelude::*;

verus! {

/// The locations that a host has set in place of the built-in ones.
pub struct SdkUrls {
    /// Where workers load the SDK from.
    pub custom_sdk_url: Option<String>,
    /// Where the worker script is loaded from.
    pub custom_worker_url: Option<String>,
}

impl SdkUrls {
    /// Nothing set.
    pub fn new() -> (urls: SdkUrls)
        ensures
            urls.custom_sdk_url is None,
            urls.custom_worker_url is None,
    {
        SdkUrls { custom_sdk_url: None, custom_worker_url: None }
    }
}

/// Sets where workers load the SDK from, in place of any earlier setting.
pub fn set_sdk_url(urls: &mut SdkUrls, url: String)
    ensures
        final(urls).custom_sdk_url == Some(url),
        final(urls).custom_worker_url == old(urls).custom_worker_url,
{
    urls.custom_sdk_url = Some(url);
}

/// Sets where the worker script is loaded from, in place of any earlier setting.
pub fn set_worker_url(urls: &mut SdkUrls, url: String)
    ensures
        final(urls).custom_worker_url == Some(url),
        final(urls).custom_sdk_url == old(urls).custom_sdk_url,
{
    urls.custom_worker_url = Some(url);
}

} // verus!
