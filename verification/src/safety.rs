use vstd::prelude::*;
use vstd::string::StringExecFns;
use crate::utils::{
    add_if_not_present, concatenate_with_and, contains_str, join_range, lower_of,
    lowercase_and_replace, replace_char, spec_concat_with_and, spec_join, spec_replace_char,
};

verus! {

/// One request to the URL-reputation service.
#[derive(Debug)]
pub struct Request {
    pub client: ClientInfo,
    pub threat_info: ThreatInfo,
}

/// Who is asking.
#[derive(Debug)]
pub struct ClientInfo {
    pub client_id: String,
    pub client_version: String,
}

/// What is asked about: the threat and platform classes of interest,
/// and the URLs to check.
#[derive(Debug)]
pub struct ThreatInfo {
    pub threat_types: Vec<String>,
    pub platform_types: Vec<String>,
    pub threat_entry_types: Vec<String>,
    pub threat_entries: Vec<ThreatEntry>,
}

/// One URL under inspection.
#[derive(Debug)]
pub struct ThreatEntry {
    pub url: String,
}

/// The reputation service's reply: the matches it found.
#[derive(Debug)]
pub struct Response {
    pub matches: Vec<Match>,
}

/// One flagged URL with its threat classification.
#[derive(Debug)]
pub struct Match {
    pub threat_type: String,
    pub platform_type: String,
    pub threat_entry_type: String,
    pub threat: ThreatEntry,
    pub threat_entry_metadata: Option<ThreatEntryMetadata>,
    pub cache_duration: String,
}

/// Extra key-value details attached to a match.
#[derive(Debug)]
pub struct ThreatEntryMetadata {
    pub entries: Vec<Entry>,
}

/// One key-value detail.
#[derive(Debug)]
pub struct Entry {
    pub key: String,
    pub value: String,
}

impl Default for Response {
    /// The clean reply: no matches at all.
    fn default() -> (r: Self)
        ensures
            r.matches@.len() == 0,
    {
        Response { matches: Vec::new() }
    }
}

impl Response {
    /// The reply flags something iff it carries at least one match.
    pub fn is_malicious(&self) -> (r: bool)
        ensures
            r == (self.matches@.len() != 0),
    {
        self.matches.len() != 0
    }
}

/// Builds the reputation request for a batch of URLs: the fixed
/// threat, platform and entry-type lists, and one entry per URL, in
/// order.
pub fn build_threat_request(urls: Vec<String>, client_version: &str) -> (r: Request)
    ensures
        r.client.client_id@ == "prometheus"@,
        r.client.client_version@ == client_version@,
        r.threat_info.threat_types.deep_view() =~= seq![
            "MALWARE"@,
            "SOCIAL_ENGINEERING"@,
            "UNWANTED_SOFTWARE"@,
            "POTENTIALLY_HARMFUL_APPLICATION"@,
        ],
        r.threat_info.platform_types.deep_view() =~= seq!["ANY_PLATFORM"@],
        r.threat_info.threat_entry_types.deep_view() =~= seq!["URL"@],
        r.threat_info.threat_entries@.map_values(|t: ThreatEntry| t.url@) =~= urls.deep_view(),
{
    let mut entries: Vec<ThreatEntry> = Vec::new();
    let mut i: usize = 0;
    while i < urls.len()
        invariant
            i <= urls@.len(),
            entries@.len() == i,
            forall|j: int| 0 <= j < i ==> (#[trigger] entries@[j]).url@ == urls.deep_view()[j],
        decreases urls@.len() - i,
    {
        entries.push(ThreatEntry { url: urls[i].clone() });
        i += 1;
    }
    let mut threat_types: Vec<String> = Vec::new();
    threat_types.push("MALWARE".to_owned());
    threat_types.push("SOCIAL_ENGINEERING".to_owned());
    threat_types.push("UNWANTED_SOFTWARE".to_owned());
    threat_types.push("POTENTIALLY_HARMFUL_APPLICATION".to_owned());
    let mut platform_types: Vec<String> = Vec::new();
    platform_types.push("ANY_PLATFORM".to_owned());
    let mut threat_entry_types: Vec<String> = Vec::new();
    threat_entry_types.push("URL".to_owned());
    Request {
        client: ClientInfo {
            client_id: "prometheus".to_owned(),
            client_version: client_version.to_owned(),
        },
        threat_info: ThreatInfo {
            threat_types,
            platform_types,
            threat_entry_types,
            threat_entries: entries,
        },
    }
}

/// Whether the service's reply body is the empty object, which the
/// caller turns into a clean default instead of decoding it.
pub fn is_empty_reply(body: &str) -> (r: bool)
    ensures
        r == (body@ == "{}"@),
{
    body.to_owned() == "{}".to_owned()
}

/// The links that the link finder sees in a text, in order, a
/// function of the text alone.
pub uninterp spec fn links_of(text: Seq<char>) -> Seq<Seq<char>>;

/// Relies on linkify's LinkFinder::links with its default kinds: the
/// links it finds in the text, in their order of appearance,
/// depending on the text alone.
#[verifier::external_body]
fn find_links(text: &str) -> (r: Vec<String>)
    ensures
        r.deep_view() == links_of(text@),
{
    let mut out: Vec<String> = Vec::new();
    for link in linkify::LinkFinder::new().links(text) {
        out.push(link.as_str().to_owned());
    }
    out
}

/// What a message's link check needs: nothing when the text carries
/// no links at all, else the batch of links to hand to the
/// reputation service.
pub fn malicious_check_plan(content: &str) -> (r: Option<Vec<String>>)
    ensures
        r is None <==> links_of(content@).len() == 0,
        r matches Some(v) ==> v.deep_view() == links_of(content@),
{
    let links = find_links(content);
    proof {
        assert(links.deep_view().len() == links@.len());
    }
    if links.len() == 0 {
        None
    } else {
        Some(links)
    }
}

/// Strings already taken, each new one appended only when absent.
pub open spec fn spec_dedup(parts: Seq<Seq<char>>) -> Seq<Seq<char>>
    decreases parts.len(),
{
    if parts.len() == 0 {
        Seq::empty()
    } else {
        crate::utils::spec_add_if_not_present(spec_dedup(parts.drop_last()), parts.last())
    }
}

/// The platform names of the matches, lowercased and with
/// underscores read as spaces.
pub open spec fn spec_platform_texts(ms: Seq<Match>) -> Seq<Seq<char>> {
    ms.map_values(|m: Match| spec_replace_char(lower_of(m.platform_type@), '_', ' '))
}

/// The threat names of the matches, prettified the same way.
pub open spec fn spec_threat_texts(ms: Seq<Match>) -> Seq<Seq<char>> {
    ms.map_values(|m: Match| spec_replace_char(lower_of(m.threat_type@), '_', ' '))
}

/// The flagged URLs, defanged: every slash turned into an angle
/// bracket.
pub open spec fn spec_shown_links(ms: Seq<Match>) -> Seq<Seq<char>> {
    ms.map_values(|m: Match| spec_replace_char(m.threat.url@, '/', '>'))
}

/// The warning sent back about flagged links: the defanged links,
/// then the distinct platforms as a bulleted list, then the distinct
/// threats as prose.
pub open spec fn spec_report_message(
    platforms: Seq<Seq<char>>,
    threats: Seq<Seq<char>>,
    links: Seq<Seq<char>>,
) -> Seq<char> {
    "Greetings and good fortune be upon thee,\n\nMay this correspondence reach thee in the best of health and spirits. We humbly scribe to thee, urgently laying forth a matter of gravest concern. It is with utmost respect that we present these identified links for thy immediate consideration:\n      \n- "@
        + spec_concat_with_and(links)
        + "\n      \nOur vigilance hath discovered these links, casting shadows of potential peril. The platforms of "@
        + spec_join(platforms, "\n- "@) + ", in their wisdom, have raised warnings of "@
        + spec_concat_with_and(threats)
        + " that may lurk therein.\n      \nFurthermore, it is of great import to declare that our loyal automaton, by its design, doth not dispatch links without thy explicit directive. Should an unsolicited link assail thy senses, we beseech thee to dismiss it, for it might be tainted with nefarious designs.\n      \nIn gratitude, we commend thy swift action in attending to this pressing matter. Thy response shall stand as a bulwark safeguarding the security and tranquility of our esteemed recipients.\n      \nWith the utmost esteem and consideration,\n      \nClifton Toaster Reid\nBearer of the Prometheus Banner"@
}

/// Renders the warning for a reply's matches: platforms and
/// threats are collected without duplicates, in order of first
/// appearance, and every flagged URL is shown defanged.
pub fn malicious_link_report(matches: &Vec<Match>) -> (r: String)
    ensures
        r@ == spec_report_message(
            spec_dedup(spec_platform_texts(matches@)),
            spec_dedup(spec_threat_texts(matches@)),
            spec_shown_links(matches@),
        ),
{
    let mut platforms: Vec<String> = Vec::new();
    let mut threats: Vec<String> = Vec::new();
    let mut links_show: Vec<String> = Vec::new();
    let mut i: usize = 0;
    while i < matches.len()
        invariant
            i <= matches@.len(),
            platforms.deep_view() == spec_dedup(spec_platform_texts(matches@.take(i as int))),
            threats.deep_view() == spec_dedup(spec_threat_texts(matches@.take(i as int))),
            links_show.deep_view() =~= spec_shown_links(matches@.take(i as int)),
        decreases matches@.len() - i,
    {
        let p = lowercase_and_replace(matches[i].platform_type.as_str());
        add_if_not_present(&mut platforms, p.as_str());
        let t = lowercase_and_replace(matches[i].threat_type.as_str());
        add_if_not_present(&mut threats, t.as_str());
        let shown = replace_char(matches[i].threat.url.as_str(), '/', '>');
        links_show.push(shown);
        proof {
            let pre = matches@.take(i as int);
            let cur = matches@.take(i + 1);
            assert(cur.last() == matches@[i as int]);
            assert(spec_platform_texts(cur).drop_last() =~= spec_platform_texts(pre));
            assert(spec_platform_texts(cur).last() == p@);
            assert(spec_threat_texts(cur).drop_last() =~= spec_threat_texts(pre));
            assert(spec_threat_texts(cur).last() == t@);
            assert(links_show.deep_view() =~= spec_shown_links(pre).push(shown@));
            assert(spec_shown_links(cur) =~= spec_shown_links(pre).push(shown@));
        }
        i += 1;
    }
    proof {
        assert(matches@.take(matches@.len() as int) =~= matches@);
    }
    let links_formated = concatenate_with_and(links_show);
    let n = platforms.len();
    let platforms_formated = join_range(&platforms, "\n- ", n);
    proof {
        assert(platforms.deep_view().take(n as int) =~= platforms.deep_view());
    }
    let threats_formated = concatenate_with_and(threats);
    let mut msg =
        "Greetings and good fortune be upon thee,\n\nMay this correspondence reach thee in the best of health and spirits. We humbly scribe to thee, urgently laying forth a matter of gravest concern. It is with utmost respect that we present these identified links for thy immediate consideration:\n      \n- ".to_owned();
    msg.append(links_formated.as_str());
    msg.append(
        "\n      \nOur vigilance hath discovered these links, casting shadows of potential peril. The platforms of ",
    );
    msg.append(platforms_formated.as_str());
    msg.append(", in their wisdom, have raised warnings of ");
    msg.append(threats_formated.as_str());
    msg.append(
        " that may lurk therein.\n      \nFurthermore, it is of great import to declare that our loyal automaton, by its design, doth not dispatch links without thy explicit directive. Should an unsolicited link assail thy senses, we beseech thee to dismiss it, for it might be tainted with nefarious designs.\n      \nIn gratitude, we commend thy swift action in attending to this pressing matter. Thy response shall stand as a bulwark safeguarding the security and tranquility of our esteemed recipients.\n      \nWith the utmost esteem and consideration,\n      \nClifton Toaster Reid\nBearer of the Prometheus Banner",
    );
    msg
}

} // verus!
