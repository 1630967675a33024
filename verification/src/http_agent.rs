//! Realistic browser user agent strings, picked at random.
use vstd::prelude::*;

verus! {

/// A random number below `n`, from `fastrand::usize(..n)`; any value below
/// `n` may come back.
#[verifier::external_body]
fn random_below(n: usize) -> (r: usize)
    requires
        n > 0,
    ensures
        r < n,
{
    fastrand::usize(..n)
}

/// The Chrome versions offered.
pub open spec fn chrome_versions() -> Seq<Seq<char>> {
    seq!["120.0.0.0"@, "121.0.0.0"@, "122.0.0.0"@, "123.0.0.0"@]
}

/// The Firefox versions offered.
pub open spec fn firefox_versions() -> Seq<Seq<char>> {
    seq!["120.0"@, "121.0"@, "122.0"@, "123.0"@]
}

/// The Safari versions offered.
pub open spec fn safari_versions() -> Seq<Seq<char>> {
    seq!["17.1"@, "17.2"@, "17.3"@, "17.4"@]
}

/// The Chrome user agent of version `v`.
pub open spec fn chrome_agent(v: Seq<char>) -> Seq<char> {
    "Mozilla/5.0 (Windows NT 10.0; Win64; x64) AppleWebKit/537.36 (KHTML, like Gecko) Chrome/"@ + v
        + " Safari/537.36"@
}

/// The Firefox user agent of version `v`.
pub open spec fn firefox_agent(v: Seq<char>) -> Seq<char> {
    "Mozilla/5.0 (Windows NT 10.0; Win64; x64; rv:"@ + v + ") Gecko/20100101 Firefox/"@ + v
}

/// The Safari user agent of version `v`.
pub open spec fn safari_agent(v: Seq<char>) -> Seq<char> {
    "Mozilla/5.0 (Macintosh; Intel Mac OS X 14_1) AppleWebKit/605.1.15 (KHTML, like Gecko) Version/"@
        + v + " Safari/605.1.15"@
}

/// `ua` is the Chrome user agent of one of the offered versions.
pub open spec fn is_chrome_agent(ua: Seq<char>) -> bool {
    exists|i: int| 0 <= i < 4 && ua == chrome_agent(#[trigger] chrome_versions()[i])
}

/// `ua` is the Firefox user agent of one of the offered versions.
pub open spec fn is_firefox_agent(ua: Seq<char>) -> bool {
    exists|i: int| 0 <= i < 4 && ua == firefox_agent(#[trigger] firefox_versions()[i])
}

/// `ua` is the Safari user agent of one of the offered versions.
pub open spec fn is_safari_agent(ua: Seq<char>) -> bool {
    exists|i: int| 0 <= i < 4 && ua == safari_agent(#[trigger] safari_versions()[i])
}

/// Factory for generating realistic user agent strings.
pub struct UserAgentFactory;

impl UserAgentFactory {
    /// A Chrome user agent with a random version.
    pub fn chrome() -> (res: String)
        ensures
            is_chrome_agent(res@),
    {
        let versions = vec!["120.0.0.0", "121.0.0.0", "122.0.0.0", "123.0.0.0"];
        let i = random_below(versions.len());
        let mut ua = String::from_str(
            "Mozilla/5.0 (Windows NT 10.0; Win64; x64) AppleWebKit/537.36 (KHTML, like Gecko) Chrome/",
        );
        ua.append(versions[i]);
        ua.append(" Safari/537.36");
        assert(chrome_versions()[i as int] == versions@[i as int]@);
        ua
    }

    /// A Firefox user agent with a random version.
    pub fn firefox() -> (res: String)
        ensures
            is_firefox_agent(res@),
    {
        let versions = vec!["120.0", "121.0", "122.0", "123.0"];
        let i = random_below(versions.len());
        let mut ua = String::from_str("Mozilla/5.0 (Windows NT 10.0; Win64; x64; rv:");
        ua.append(versions[i]);
        ua.append(") Gecko/20100101 Firefox/");
        ua.append(versions[i]);
        assert(firefox_versions()[i as int] == versions@[i as int]@);
        ua
    }

    /// A Safari user agent with a random version.
    pub fn safari() -> (res: String)
        ensures
            is_safari_agent(res@),
    {
        let versions = vec!["17.1", "17.2", "17.3", "17.4"];
        let i = random_below(versions.len());
        let mut ua = String::from_str(
            "Mozilla/5.0 (Macintosh; Intel Mac OS X 14_1) AppleWebKit/605.1.15 (KHTML, like Gecko) Version/",
        );
        ua.append(versions[i]);
        ua.append(" Safari/605.1.15");
        assert(safari_versions()[i as int] == versions@[i as int]@);
        ua
    }

    /// A user agent of a random browser.
    pub fn random() -> (res: String)
        ensures
            is_chrome_agent(res@) || is_firefox_agent(res@) || is_safari_agent(res@),
    {
        let pick = random_below(3);
        if pick == 0 {
            Self::chrome()
        } else if pick == 1 {
            Self::firefox()
        } else {
            Self::safari()
        }
    }
}

} // verus!
