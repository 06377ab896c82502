use vstd::prelude::*;

use crate::cli::{Command, FootprintsCmd, ListArgs, ListCmd};
use crate::client::{
    base_params_spec, is_dry_run_value, kv_filter_params, pact_filter_params, params_view,
    strings_view, Client, Request, Resource,
};
use crate::error::CliError;
use crate::json::{Json, find_member, lookup, obj_lookup};
use crate::text::{decimal, u64_to_decimal};

verus! {

// ---------------------------------------------------------------------------
// List responses
// ---------------------------------------------------------------------------

/// The records carried by one list response: the elements of the `data` array
/// of a `{"data": [...]}` envelope, or of a bare array; nothing otherwise.
pub open spec fn page_items(page: Json) -> Seq<Json> {
    match page {
        Json::Object(entries) => match obj_lookup(entries@, "data"@) {
            Some(Json::Array(data)) => data@,
            _ => seq![],
        },
        Json::Array(items) => items@,
        _ => seq![],
    }
}

/// The records of all pages, page after page, each page's records in order.
pub open spec fn all_items(pages: Seq<Json>) -> Seq<Json>
    decreases pages.len(),
{
    if pages.len() == 0 {
        seq![]
    } else {
        all_items(pages.drop_last()) + page_items(pages.last())
    }
}

/// The sum of the record counts of all pages.
pub open spec fn total_items(pages: Seq<Json>) -> nat
    decreases pages.len(),
{
    if pages.len() == 0 {
        0
    } else {
        total_items(pages.drop_last()) + page_items(pages.last()).len()
    }
}

/// `merged` is the merge of `pages`: a single page passes through unchanged;
/// otherwise the records of all pages are collected, wrapped in a
/// `{"data": [...]}` envelope when the first page is an object and returned
/// as a bare array otherwise.
pub open spec fn is_merge_of(merged: Json, pages: Seq<Json>) -> bool {
    if pages.len() == 1 {
        merged == pages[0]
    } else if pages.len() > 0 && pages[0] is Object {
        &&& merged matches Json::Object(entries)
        &&& entries@.len() == 1
        &&& entries@[0].0@ == "data"@
        &&& entries@[0].1 matches Json::Array(data)
        &&& data@ == all_items(pages)
    } else {
        merged matches Json::Array(data) && data@ == all_items(pages)
    }
}

/// Count the records carried by a list response, whether the server returns a
/// `{"data": [...]}` envelope or a bare array. Pagination uses it to decide
/// whether a page was full (so another may follow).
pub fn item_count(value: &Json) -> (n: usize)
    ensures
        n == page_items(*value).len(),
{
    match value {
        Json::Object(entries) => match lookup(entries, "data") {
            Some(Json::Array(data)) => data.len(),
            _ => 0,
        },
        Json::Array(items) => items.len(),
        _ => 0,
    }
}

/// The value of the last member of `entries` with key `key`, wherever it stands.
proof fn lemma_obj_lookup_last_member(entries: Seq<(String, Json)>, key: Seq<char>, i: int)
    requires
        0 <= i < entries.len(),
        entries[i].0@ == key,
        forall|j: int| i < j < entries.len() ==> #[trigger] entries[j].0@ != key,
    ensures
        obj_lookup(entries, key) == Some(entries[i].1),
    decreases entries.len(),
{
    if i < entries.len() - 1 {
        let rest = entries.drop_last();
        assert(entries.last().0@ != key);
        assert forall|j: int| i < j < rest.len() implies #[trigger] rest[j].0@ != key by {
            assert(rest[j] == entries[j]);
        }
        lemma_obj_lookup_last_member(rest, key, i);
        assert(rest[i] == entries[i]);
    }
}

/// The records of an object page are the elements of the array under its
/// `data` key, wherever that member stands among the others (a repeated key
/// counts with its last occurrence); the records of an array page are its
/// elements. So `{"data": [x, y], "links": {...}}` carries two records.
pub proof fn page_records_are_its_data_array(
    entries: Vec<(String, Json)>,
    i: int,
    data: Vec<Json>,
    items: Vec<Json>,
)
    requires
        0 <= i < entries@.len(),
        entries@[i].0@ == "data"@,
        entries@[i].1 == Json::Array(data),
        forall|j: int| i < j < entries@.len() ==> #[trigger] entries@[j].0@ != "data"@,
    ensures
        page_items(Json::Object(entries)) == data@,
        page_items(Json::Array(items)) == items@,
{
    lemma_obj_lookup_last_member(entries@, "data"@, i);
}

/// Moves the records of one page to the end of `all`.
fn take_page_items(page: Json, all: &mut Vec<Json>)
    ensures
        final(all)@ == old(all)@ + page_items(page),
{
    let ghost page0 = page;
    match page {
        Json::Object(mut entries) => {
            match find_member(&entries, "data") {
                Some(i) => {
                    let (_, value) = entries.swap_remove(i);
                    match value {
                        Json::Array(mut data) => {
                            all.append(&mut data);
                        },
                        _ => {
                            assert(page_items(page0) =~= Seq::<Json>::empty());
                            assert(all@ =~= old(all)@ + page_items(page0));
                        },
                    }
                },
                None => {
                    assert(all@ =~= old(all)@ + page_items(page0));
                },
            }
        },
        Json::Array(mut items) => {
            all.append(&mut items);
        },
        _ => {
            assert(all@ =~= old(all)@ + page_items(page0));
        },
    }
}

/// Merges fetched pages into one document (see `is_merge_of`). The envelope
/// follows the first page; records of pages of another shape are still kept.
pub fn merge_pages(pages: Vec<Json>) -> (merged: Json)
    ensures
        is_merge_of(merged, pages@),
{
    let mut pages = pages;
    let ghost pages0 = pages@;
    if pages.len() == 1 {
        return pages.remove(0);
    }
    let is_object = pages.len() > 0 && match &pages[0] {
        Json::Object(_) => true,
        _ => false,
    };
    let mut all: Vec<Json> = Vec::new();
    let mut taken: usize = 0;
    let n = pages.len();
    assert(pages@ =~= pages0.subrange(0, n as int));
    while taken < n
        invariant
            n == pages0.len(),
            taken <= n,
            pages@ == pages0.subrange(taken as int, n as int),
            all@ == all_items(pages0.subrange(0, taken as int)),
        decreases n - taken,
    {
        let page = pages.remove(0);
        assert(page == pages0[taken as int]);
        assert(pages@ =~= pages0.subrange(taken + 1, n as int));
        let ghost sub = pages0.subrange(0, taken + 1);
        assert(sub.drop_last() =~= pages0.subrange(0, taken as int));
        take_page_items(page, &mut all);
        taken = taken + 1;
    }
    assert(pages0.subrange(0, n as int) =~= pages0);
    if is_object {
        let mut entries: Vec<(String, Json)> = Vec::new();
        entries.push((String::from_str("data"), Json::Array(all)));
        Json::Object(entries)
    } else {
        Json::Array(all)
    }
}

/// The record count of all pages together.
proof fn lemma_all_items_len(pages: Seq<Json>)
    ensures
        all_items(pages).len() == total_items(pages),
    decreases pages.len(),
{
    if pages.len() > 0 {
        lemma_all_items_len(pages.drop_last());
    }
}

/// Merging loses and invents no record: the merged document carries exactly
/// as many records as all fetched pages together.
pub proof fn merge_pages_keeps_every_item(pages: Seq<Json>, merged: Json)
    requires
        is_merge_of(merged, pages),
    ensures
        page_items(merged).len() == total_items(pages),
{
    reveal_strlit("data");
    lemma_all_items_len(pages);
    if pages.len() == 1 {
        assert(pages.drop_last() =~= Seq::<Json>::empty());
        assert(pages.last() == pages[0]);
        assert(total_items(pages.drop_last()) == 0);
        assert(total_items(pages) == page_items(pages[0]).len());
    } else if pages.len() > 0 && pages[0] is Object {
        let entries = merged->Object_0;
        assert(entries@.drop_last() =~= Seq::<(String, Json)>::empty());
        assert(obj_lookup(entries@, "data"@) == Some(entries@[0].1));
    }
}

} // verus!

verus! {

// ---------------------------------------------------------------------------
// Pagination
// ---------------------------------------------------------------------------

/// The larger of a page cap and one: at least one page is always fetched.
pub open spec fn page_cap(max_pages: u32) -> nat {
    if max_pages == 0 {
        1
    } else {
        max_pages as nat
    }
}

/// The state of one paginated listing. Pages are requested at offsets
/// `0, limit, 2 * limit, ...`; the listing ends after the first page that is not
/// full, when `max_pages` pages have been fetched, or after the first page
/// when no limit is given.
pub struct Pagination {
    limit: Option<u32>,
    max_pages: Option<u32>,
    offset: u32,
    page_num: u32,
    pages: Vec<Json>,
    done: bool,
}

impl Pagination {
    pub closed spec fn spec_limit(&self) -> Option<u32> {
        self.limit
    }

    pub closed spec fn spec_max_pages(&self) -> Option<u32> {
        self.max_pages
    }

    /// The offset of the next page to fetch.
    pub closed spec fn spec_offset(&self) -> u32 {
        self.offset
    }

    /// The number of pages fetched so far.
    pub closed spec fn spec_page_num(&self) -> u32 {
        self.page_num
    }

    /// The pages fetched so far, in order.
    pub closed spec fn spec_pages(&self) -> Seq<Json> {
        self.pages@
    }

    /// Whether the listing is complete.
    pub closed spec fn spec_done(&self) -> bool {
        self.done
    }

    pub closed spec fn wf(&self) -> bool {
        &&& self.pages@.len() == self.page_num
        &&& (self.limit is None ==> self.offset == 0 && self.page_num <= 1 && (self.page_num > 0
            ==> self.done))
        &&& (!self.done ==> (self.limit matches Some(l) ==> self.offset == self.page_num * l))
        &&& (self.max_pages matches Some(mp) ==> {
            &&& self.page_num <= page_cap(mp)
            &&& (self.page_num >= mp && self.page_num >= 1 ==> self.done)
        })
        &&& (!self.done ==> forall|i: int|
            0 <= i < self.page_num ==> #[trigger] page_items(self.pages@[i]).len() == self.limit->0)
        &&& (self.done ==> self.page_num >= 1)
    }

    /// Whether another page is requested after `value` arrives: the page was
    /// full (as many records as the limit) and the page cap is not reached.
    pub open spec fn continues_after(&self, value: Json) -> bool {
        &&& self.spec_limit() matches Some(l)
        &&& page_items(value).len() == l
        &&& !(self.spec_max_pages() matches Some(mp) && self.spec_page_num() + 1 >= mp)
    }

    pub fn new(limit: Option<u32>, max_pages: Option<u32>) -> (p: Self)
        ensures
            p.wf(),
            p.spec_limit() == limit,
            p.spec_max_pages() == max_pages,
            p.spec_offset() == 0,
            p.spec_page_num() == 0,
            p.spec_pages() == Seq::<Json>::empty(),
            !p.spec_done(),
    {
        Pagination { limit, max_pages, offset: 0, page_num: 0, pages: Vec::new(), done: false }
    }

    /// The offset of the next page to fetch, or `None` once the listing is complete.
    pub fn next_offset(&self) -> (r: Option<u32>)
        ensures
            r == (if self.spec_done() { None } else { Some(self.spec_offset()) }),
    {
        if self.done {
            None
        } else {
            Some(self.offset)
        }
    }

    /// The number of pages fetched so far.
    pub fn page_num(&self) -> (n: u32)
        ensures
            n == self.spec_page_num(),
    {
        self.page_num
    }

    /// Whether recording `value` would push the next offset past `u32::MAX`.
    pub fn offset_overflows(&self, value: &Json) -> (r: bool)
        ensures
            r == (self.continues_after(*value) && self.spec_offset() + self.spec_limit()->0
                > u32::MAX),
    {
        match self.limit {
            Some(l) => {
                let full = item_count(value) == l as usize;
                let at_max = match self.max_pages {
                    Some(mp) => self.page_num as u64 + 1 >= mp as u64,
                    None => false,
                };
                full && !at_max && self.offset as u64 + l as u64 > u32::MAX as u64
            },
            None => false,
        }
    }

    /// Records the page fetched at the current offset and decides whether
    /// another page follows.
    pub fn add_page(&mut self, value: Json)
        requires
            old(self).wf(),
            !old(self).spec_done(),
            old(self).spec_page_num() < u32::MAX,
            old(self).continues_after(value) ==> old(self).spec_offset() + old(
                self,
            ).spec_limit()->0 <= u32::MAX,
        ensures
            final(self).wf(),
            final(self).spec_limit() == old(self).spec_limit(),
            final(self).spec_max_pages() == old(self).spec_max_pages(),
            final(self).spec_pages() == old(self).spec_pages().push(value),
            final(self).spec_page_num() == old(self).spec_page_num() + 1,
            final(self).spec_done() == !old(self).continues_after(value),
            final(self).spec_offset() == (if old(self).continues_after(value) {
                old(self).spec_offset() + old(self).spec_limit()->0
            } else {
                old(self).spec_offset() as int
            }),
    {
        let ghost cont = self.continues_after(value);
        let ghost old_pages = self.pages@;
        let n = item_count(&value);
        let more = match self.limit {
            Some(l) => n == l as usize,
            None => false,
        };
        self.page_num = self.page_num + 1;
        let at_max = match self.max_pages {
            Some(mp) => self.page_num >= mp,
            None => false,
        };
        self.pages.push(value);
        if !more || at_max {
            self.done = true;
        } else {
            let l = self.limit.unwrap();
            proof {
                let k = (self.page_num - 1) as int;
                assert(self.offset == k * l);
                assert((k + 1) * l == k * l + l) by (nonlinear_arith);
            }
            self.offset = self.offset + l;
            assert forall|i: int| 0 <= i < self.page_num implies #[trigger] page_items(
                self.pages@[i],
            ).len() == self.limit->0 by {
                if i < self.page_num - 1 {
                    assert(self.pages@[i] == old_pages[i]);
                }
            }
        }
        assert(cont == (more && !at_max));
    }

    /// The pages fetched so far, merged into the document that is printed.
    pub fn finish(self) -> (merged: Json)
        ensures
            is_merge_of(merged, self.spec_pages()),
    {
        merge_pages(self.pages)
    }
}

/// Page `k` (counting from zero) of a limited listing is requested at offset
/// `k * limit`.
pub proof fn pagination_offsets_step_by_limit(p: &Pagination)
    requires
        p.wf(),
        p.spec_limit() is Some,
        !p.spec_done(),
    ensures
        p.spec_offset() == p.spec_page_num() * p.spec_limit()->0,
{
}

/// Without a limit there is no way to tell a full page from a short one, so
/// exactly one page is fetched.
pub proof fn pagination_without_limit_fetches_once(p: &Pagination)
    requires
        p.wf(),
        p.spec_limit() is None,
        p.spec_page_num() >= 1,
    ensures
        p.spec_done(),
        p.spec_page_num() == 1,
        p.spec_offset() == 0,
{
}

/// `--max-pages` caps the number of requests (a cap of zero still fetches one page).
pub proof fn pagination_caps_pages(p: &Pagination)
    requires
        p.wf(),
        p.spec_max_pages() is Some,
    ensures
        p.spec_page_num() <= page_cap(p.spec_max_pages()->0),
{
}

/// Without `--max-pages` there is no page cap: a full page always continues a
/// limited listing, however many pages were fetched before, and the next page
/// is requested `limit` records further on. (`add_page` ends the listing
/// exactly when `continues_after` fails, and moves the offset by the limit
/// when it holds.)
pub proof fn full_page_continues_without_page_cap(p: &Pagination, value: Json, l: u32)
    requires
        p.wf(),
        !p.spec_done(),
        p.spec_limit() == Some(l),
        p.spec_max_pages() is None,
        page_items(value).len() == l,
    ensures
        p.continues_after(value),
        p.spec_offset() + l == (p.spec_page_num() + 1) * l,
{
    assert((p.spec_page_num() + 1) * l == p.spec_page_num() * l + l) by (nonlinear_arith);
}

/// A page with fewer (or more) records than the limit ends the listing, and a
/// listing without a limit ends after its first page.
pub proof fn page_that_is_not_full_ends_listing(p: &Pagination, value: Json)
    requires
        p.spec_limit() matches Some(l) ==> page_items(value).len() != l,
    ensures
        !p.continues_after(value),
{
}

/// With `--max-pages mp`, a full page continues the listing exactly while
/// fewer than `mp` pages (counting this one) have been fetched.
pub proof fn full_page_continues_below_page_cap(p: &Pagination, value: Json, l: u32, mp: u32)
    requires
        p.spec_limit() == Some(l),
        p.spec_max_pages() == Some(mp),
        page_items(value).len() == l,
    ensures
        p.continues_after(value) <==> p.spec_page_num() + 1 < mp,
{
}

/// Another page is requested only while every page so far was full; a short
/// page always ends the listing.
pub proof fn pagination_continues_only_after_full_pages(p: &Pagination)
    requires
        p.wf(),
        !p.spec_done(),
    ensures
        forall|i: int|
            0 <= i < p.spec_page_num() ==> #[trigger] page_items(p.spec_pages()[i]).len()
                == p.spec_limit()->0,
{
}

} // verus!

verus! {

// ---------------------------------------------------------------------------
// Resource commands
// ---------------------------------------------------------------------------

/// What a resource command does once its client is ready.
#[derive(Debug)]
pub enum ResourceAction {
    /// Print this document (a dry run).
    Print(Json),
    /// Send this request and print the document it returns.
    Fetch(Request),
    /// Fetch the pages of `resource` and print them merged.
    Paginate { resource: Resource, limit: Option<u32>, max_pages: Option<u32>, filters: Vec<String> },
}

/// The error for more than one OData filter on PACT footprints, naming the first two.
pub open spec fn too_many_filters_message(filters: Seq<Seq<char>>) -> Seq<char> {
    "PACT footprints accepts at most one --filter; got "@ + decimal(filters.len())
        + ". Combine conditions in one OData expression, e.g. -f \""@ + filters[0] + " and "@
        + filters[1] + "\""@
}

/// PACT accepts a single OData `$filter` expression: more than one `--filter`
/// is refused instead of silently dropping the rest.
pub fn check_footprints_filters(filters: &Vec<String>) -> (r: Result<(), CliError>)
    ensures
        match r {
            Ok(()) => filters@.len() <= 1,
            Err(e) => filters@.len() > 1 && e is Other && e.spec_message()
                == too_many_filters_message(strings_view(filters@)),
        },
{
    if filters.len() > 1 {
        let mut m = String::from_str("PACT footprints accepts at most one --filter; got ");
        m.append(u64_to_decimal(filters.len() as u64).as_str());
        m.append(". Combine conditions in one OData expression, e.g. -f \"");
        m.append(filters[0].as_str());
        m.append(" and ");
        m.append(filters[1].as_str());
        m.append("\"");
        Err(CliError::Other(m))
    } else {
        Ok(())
    }
}

/// The resource a (non-`auth`) command addresses.
pub open spec fn command_resource(cmd: Command) -> Resource {
    match cmd {
        Command::Footprints { .. } => Resource::Footprints,
        Command::Shipments { .. } => Resource::Shipments,
        Command::Tocs { .. } => Resource::Tocs,
        Command::Hocs { .. } => Resource::Hocs,
        Command::Tad { .. } => Resource::Tad,
        Command::Aed { .. } => Resource::Aed,
        Command::Auth { .. } => Resource::Footprints,
    }
}

/// The listing options of a listing command.
pub open spec fn command_list_args(cmd: Command) -> Option<ListArgs> {
    match cmd {
        Command::Footprints { cmd: FootprintsCmd::List(args) } => Some(args),
        Command::Shipments { cmd: ListCmd::List(args) } => Some(args),
        Command::Tocs { cmd: ListCmd::List(args) } => Some(args),
        Command::Hocs { cmd: ListCmd::List(args) } => Some(args),
        Command::Tad { cmd: ListCmd::List(args) } => Some(args),
        Command::Aed { cmd: ListCmd::List(args) } => Some(args),
        _ => None,
    }
}

/// The action of a resource command: `footprints get` fetches (or describes)
/// one footprint; listings are checked (PACT: at most one filter), then either
/// described (`--dry-run`, first page) or paginated.
pub open spec fn is_resource_action(client: Client, cmd: Command, r: Result<ResourceAction, CliError>) -> bool {
    match cmd {
        Command::Footprints { cmd: FootprintsCmd::Get { id, dry_run } } => if dry_run {
            r matches Ok(ResourceAction::Print(v)) && is_dry_run_value(
                v,
                client.spec_base_url() + "/2/footprints/"@ + id@,
                Seq::empty(),
            )
        } else {
            &&& r matches Ok(ResourceAction::Fetch(req))
            &&& req.url@ == client.spec_base_url() + "/2/footprints/"@ + id@
            &&& req.params@.len() == 0
        },
        _ => {
            let args = command_list_args(cmd)->0;
            let resource = command_resource(cmd);
            let filters = strings_view(args.filter@);
            if resource == Resource::Footprints && filters.len() > 1 {
                r matches Err(e) && e is Other && e.spec_message()
                    == too_many_filters_message(filters)
            } else if args.dry_run {
                r matches Ok(ResourceAction::Print(v)) && is_dry_run_value(
                    v,
                    client.spec_base_url() + resource.spec_path(),
                    base_params_spec(args.limit, 0) + (if resource == Resource::Footprints {
                        pact_filter_params(filters)
                    } else {
                        kv_filter_params(filters)
                    }),
                )
            } else {
                &&& r matches Ok(ResourceAction::Paginate { resource: pr, limit, max_pages, filters: pf })
                &&& pr == resource
                &&& limit == args.limit
                &&& max_pages == args.max_pages
                &&& strings_view(pf@) == filters
            }
        },
    }
}

/// The listing `r` addresses `path` under the client's base URL, the endpoint
/// of `resource`: a dry run prints that URL, otherwise the pages of
/// `resource` are fetched.
pub open spec fn lists_endpoint(
    client: Client,
    r: Result<ResourceAction, CliError>,
    dry_run: bool,
    resource: Resource,
    path: Seq<char>,
) -> bool {
    &&& resource.spec_path() == path
    &&& if dry_run {
        &&& r matches Ok(ResourceAction::Print(Json::Object(e)))
        &&& e@.len() > 2
        &&& e@[2].0@ == "url"@
        &&& e@[2].1 matches Json::String(u)
        &&& u@ == client.spec_base_url() + path
    } else {
        r matches Ok(ResourceAction::Paginate { resource: pr, .. }) && pr == resource
    }
}

/// Each listing command addresses its own endpoint: `footprints` the PACT
/// path `/2/footprints` (when at most one filter is given), `shipments`,
/// `tocs`, `hocs`, `tad` and `aed` their paths under `/v1/ileap/`; and
/// `footprints get <id>` requests `/2/footprints/<id>`.
pub proof fn listing_commands_address_their_own_endpoints(
    client: Client,
    cmd: Command,
    r: Result<ResourceAction, CliError>,
)
    requires
        is_resource_action(client, cmd, r),
    ensures
        match cmd {
            Command::Footprints { cmd: FootprintsCmd::List(args) } => args.filter@.len() <= 1
                ==> lists_endpoint(client, r, args.dry_run, Resource::Footprints, "/2/footprints"@),
            Command::Footprints { cmd: FootprintsCmd::Get { id, dry_run } } => !dry_run ==> (r matches Ok(
                ResourceAction::Fetch(req),
            ) && req.url@ == client.spec_base_url() + "/2/footprints/"@ + id@),
            Command::Shipments { cmd: ListCmd::List(args) } => lists_endpoint(
                client,
                r,
                args.dry_run,
                Resource::Shipments,
                "/v1/ileap/shipments"@,
            ),
            Command::Tocs { cmd: ListCmd::List(args) } => lists_endpoint(
                client,
                r,
                args.dry_run,
                Resource::Tocs,
                "/v1/ileap/tocs"@,
            ),
            Command::Hocs { cmd: ListCmd::List(args) } => lists_endpoint(
                client,
                r,
                args.dry_run,
                Resource::Hocs,
                "/v1/ileap/hocs"@,
            ),
            Command::Tad { cmd: ListCmd::List(args) } => lists_endpoint(
                client,
                r,
                args.dry_run,
                Resource::Tad,
                "/v1/ileap/tad"@,
            ),
            Command::Aed { cmd: ListCmd::List(args) } => lists_endpoint(
                client,
                r,
                args.dry_run,
                Resource::Aed,
                "/v1/ileap/aed"@,
            ),
            Command::Auth { .. } => true,
        },
{
}

fn list_action(client: &Client, resource: Resource, args: ListArgs) -> (r: Result<ResourceAction, CliError>)
    ensures
        ({
            let filters = strings_view(args.filter@);
            if resource == Resource::Footprints && filters.len() > 1 {
                r matches Err(e) && e is Other && e.spec_message()
                    == too_many_filters_message(filters)
            } else if args.dry_run {
                r matches Ok(ResourceAction::Print(v)) && is_dry_run_value(
                    v,
                    client.spec_base_url() + resource.spec_path(),
                    base_params_spec(args.limit, 0) + (if resource == Resource::Footprints {
                        pact_filter_params(filters)
                    } else {
                        kv_filter_params(filters)
                    }),
                )
            } else {
                &&& r matches Ok(ResourceAction::Paginate { resource: pr, limit, max_pages, filters: pf })
                &&& pr == resource
                &&& limit == args.limit
                &&& max_pages == args.max_pages
                &&& strings_view(pf@) == filters
            }
        }),
{
    if resource == Resource::Footprints {
        check_footprints_filters(&args.filter)?;
        if args.dry_run {
            return Ok(ResourceAction::Print(client.footprints_dry_run(args.limit, 0, args.filter.as_slice())));
        }
    } else if args.dry_run {
        return Ok(ResourceAction::Print(
            client.list_dry_run(resource.path(), args.limit, 0, args.filter.as_slice()),
        ));
    }
    Ok(ResourceAction::Paginate {
        resource,
        limit: args.limit,
        max_pages: args.max_pages,
        filters: args.filter,
    })
}

/// Decides what a resource command does (see `is_resource_action`).
pub fn resource_action(client: &Client, cmd: Command) -> (r: Result<ResourceAction, CliError>)
    requires
        !(cmd is Auth),
    ensures
        is_resource_action(*client, cmd, r),
{
    match cmd {
        Command::Footprints { cmd: FootprintsCmd::Get { id, dry_run } } => {
            if dry_run {
                Ok(ResourceAction::Print(client.footprint_dry_run(id.as_str())))
            } else {
                Ok(ResourceAction::Fetch(client.footprint(id.as_str())))
            }
        },
        Command::Footprints { cmd: FootprintsCmd::List(args) } => list_action(client, Resource::Footprints, args),
        Command::Shipments { cmd: ListCmd::List(args) } => list_action(client, Resource::Shipments, args),
        Command::Tocs { cmd: ListCmd::List(args) } => list_action(client, Resource::Tocs, args),
        Command::Hocs { cmd: ListCmd::List(args) } => list_action(client, Resource::Hocs, args),
        Command::Tad { cmd: ListCmd::List(args) } => list_action(client, Resource::Tad, args),
        Command::Aed { cmd: ListCmd::List(args) } => list_action(client, Resource::Aed, args),
        Command::Auth { .. } => {
            proof {
                assert(false);
            }
            Err(CliError::Other(String::new()))
        },
    }
}

} // verus!
