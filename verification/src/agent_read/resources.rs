//! The table of what an agent can ask for.
use vstd::prelude::*;

use crate::json::{array_of, items, put, Json, JsonView, ObjectBuilder};
use crate::text::str_eq;

verus! {

/// What an agent can ask for.
#[derive(Debug, Clone, Copy, PartialEq, Eq, Structural)]
pub enum Resource {
    /// The strongest jobs across all automations.
    BestMatches,
    /// One posting.
    Job,
    /// The contact data of the user.
    Profile,
    /// All automations.
    Automations,
    /// This table.
    Schema,
    /// The jobs of one automation.
    FoundJobs,
}

/// The name of a resource.
pub open spec fn resource_text(r: Resource) -> Seq<char> {
    match r {
        Resource::BestMatches => "best-matches"@,
        Resource::Job => "job"@,
        Resource::Profile => "profile"@,
        Resource::Automations => "automations"@,
        Resource::Schema => "schema"@,
        Resource::FoundJobs => "found-jobs"@,
    }
}

/// The resource with a name, where there is one.
pub open spec fn resource_named(name: Seq<char>) -> Option<Resource> {
    if name == "best-matches"@ {
        Some(Resource::BestMatches)
    } else if name == "job"@ {
        Some(Resource::Job)
    } else if name == "profile"@ {
        Some(Resource::Profile)
    } else if name == "automations"@ {
        Some(Resource::Automations)
    } else if name == "schema"@ {
        Some(Resource::Schema)
    } else if name == "found-jobs"@ {
        Some(Resource::FoundJobs)
    } else {
        None
    }
}

impl Resource {
    /// The name of the resource.
    pub fn name(self) -> (r: &'static str)
        ensures
            r@ == resource_text(self),
    {
        match self {
            Resource::BestMatches => "best-matches",
            Resource::Job => "job",
            Resource::Profile => "profile",
            Resource::Automations => "automations",
            Resource::Schema => "schema",
            Resource::FoundJobs => "found-jobs",
        }
    }

    /// The resource with a name, where there is one.
    pub fn named(name: &str) -> (r: Option<Self>)
        ensures
            r == resource_named(name@),
    {
        if str_eq(name, "best-matches") {
            Some(Resource::BestMatches)
        } else if str_eq(name, "job") {
            Some(Resource::Job)
        } else if str_eq(name, "profile") {
            Some(Resource::Profile)
        } else if str_eq(name, "automations") {
            Some(Resource::Automations)
        } else if str_eq(name, "schema") {
            Some(Resource::Schema)
        } else if str_eq(name, "found-jobs") {
            Some(Resource::FoundJobs)
        } else {
            None
        }
    }
}

/// What the table says of a resource.
pub struct ResourceRow {
    pub resource: Resource,
    pub description: &'static str,
}

/// A row of the table as values.
pub struct RowView {
    pub resource: Resource,
    pub description: Seq<char>,
}

impl View for ResourceRow {
    type V = RowView;

    open spec fn view(&self) -> RowView {
        RowView { resource: self.resource, description: self.description@ }
    }
}

/// The table.
pub open spec fn resource_table() -> Seq<RowView> {
    seq![
        RowView {
            resource: Resource::BestMatches,
            description:
                "Strongest jobs across every autopilot. Optional `limit` (default 20, max 50)."@,
        },
        RowView {
            resource: Resource::Job,
            description: "Full detail for one posting. `url` required."@,
        },
        RowView {
            resource: Resource::Profile,
            description:
                "Contact-profile fields for autofill — same consent gate as `profile.get`."@,
        },
        RowView {
            resource: Resource::Automations,
            description: "Every autopilot and its status."@,
        },
        RowView { resource: Resource::Schema, description: "This resource list."@ },
        RowView {
            resource: Resource::FoundJobs,
            description:
                "Paginated traversal of ONE autopilot's complete found-jobs list (issue #1115). `autopilotId` required, optional `limit`/`cursor` — repeat with the returned `nextCursor` until it is `null`."@,
        },
    ]
}

/// The rows of a list as values.
pub open spec fn rows_view(v: Seq<ResourceRow>) -> Seq<RowView> {
    Seq::new(v.len(), |i: int| v[i]@)
}

/// The table.
pub fn resources() -> (r: Vec<ResourceRow>)
    ensures
        rows_view(r@) == resource_table(),
{
    let mut v: Vec<ResourceRow> = Vec::new();
    v.push(
        ResourceRow {
            resource: Resource::BestMatches,
            description:
                "Strongest jobs across every autopilot. Optional `limit` (default 20, max 50).",
        },
    );
    v.push(
        ResourceRow {
            resource: Resource::Job,
            description: "Full detail for one posting. `url` required.",
        },
    );
    v.push(
        ResourceRow {
            resource: Resource::Profile,
            description:
                "Contact-profile fields for autofill — same consent gate as `profile.get`.",
        },
    );
    v.push(
        ResourceRow {
            resource: Resource::Automations,
            description: "Every autopilot and its status.",
        },
    );
    v.push(ResourceRow { resource: Resource::Schema, description: "This resource list." });
    v.push(
        ResourceRow {
            resource: Resource::FoundJobs,
            description:
                "Paginated traversal of ONE autopilot's complete found-jobs list (issue #1115). `autopilotId` required, optional `limit`/`cursor` — repeat with the returned `nextCursor` until it is `null`.",
        },
    );
    assert(rows_view(v@) =~= resource_table());
    v
}

/// A row of the table as an agent sees it.
pub open spec fn row_value(row: RowView) -> JsonView {
    let e = put(Seq::empty(), "name"@, JsonView::Text(resource_text(row.resource)));
    JsonView::Object(put(e, "description"@, JsonView::Text(row.description)))
}

/// The table as an agent sees it.
pub open spec fn schema_content() -> JsonView {
    JsonView::Object(
        put(
            Seq::empty(),
            "resources"@,
            JsonView::Array(resource_table().map_values(|row: RowView| row_value(row))),
        ),
    )
}

/// The table as an agent sees it.
pub fn schema_value() -> (r: Json)
    ensures
        r@ == schema_content(),
{
    let table: Vec<ResourceRow> = resources();
    let mut out: Vec<Json> = Vec::new();
    let mut i: usize = 0;
    while i < table.len()
        invariant
            i <= table@.len(),
            out@.len() == i,
            forall|k: int| 0 <= k < i ==> (#[trigger] out@[k])@ == row_value(table@[k]@),
        decreases table@.len() - i,
    {
        let row: &ResourceRow = &table[i];
        let value: Json = ObjectBuilder::new().with_text("name", row.resource.name()).with_text(
            "description",
            row.description,
        ).build();
        out.push(value);
        i = i + 1;
    }
    assert(items(out@) =~= rows_view(table@).map_values(|row: RowView| row_value(row)));
    ObjectBuilder::new().with("resources", array_of(out)).build()
}

// ── Laws ────────────────────────────────────────────────────────────────────

/// Every resource is found by its name.
pub proof fn names_find_their_resource(r: Resource)
    ensures
        resource_named(resource_text(r)) == Some(r),
{
    reveal_strlit("best-matches");
    reveal_strlit("job");
    reveal_strlit("profile");
    reveal_strlit("automations");
    reveal_strlit("schema");
    reveal_strlit("found-jobs");
    assert("job"@.len() == 3 && "profile"@.len() == 7 && "automations"@.len() == 11
        && "schema"@.len() == 6 && "found-jobs"@.len() == 10 && "best-matches"@.len() == 12);
}

/// What can be asked for stands in the table, and what stands there can be asked for.
pub proof fn table_is_what_can_be_asked(name: Seq<char>)
    ensures
        resource_named(name) is Some <==> exists|i: int|
            0 <= i < resource_table().len() && resource_text(
                #[trigger] resource_table()[i].resource,
            ) == name,
{
    let table = resource_table();
    if resource_named(name) is Some {
        let r = resource_named(name)->0;
        assert(table[0].resource == Resource::BestMatches);
        assert(table[1].resource == Resource::Job);
        assert(table[2].resource == Resource::Profile);
        assert(table[3].resource == Resource::Automations);
        assert(table[4].resource == Resource::Schema);
        assert(table[5].resource == Resource::FoundJobs);
        assert(resource_text(r) == name);
    }
}

/// The table says of each resource what it is.
pub proof fn table_says_what_each_resource_is(row: RowView)
    requires
        resource_table().contains(row),
    ensures
        row.resource == Resource::BestMatches ==> row.description == "Strongest jobs across every autopilot. Optional `limit` (default 20, max 50)."@,
        row.resource == Resource::Job ==> row.description == "Full detail for one posting. `url` required."@,
        row.resource == Resource::Profile ==> row.description == "Contact-profile fields for autofill — same consent gate as `profile.get`."@,
        row.resource == Resource::Automations ==> row.description == "Every autopilot and its status."@,
        row.resource == Resource::Schema ==> row.description == "This resource list."@,
        row.resource == Resource::FoundJobs ==> row.description == "Paginated traversal of ONE autopilot's complete found-jobs list (issue #1115). `autopilotId` required, optional `limit`/`cursor` — repeat with the returned `nextCursor` until it is `null`."@,
{
    let i = choose|i: int| 0 <= i < resource_table().len() && resource_table()[i] == row;
    assert(resource_table()[0].resource == Resource::BestMatches);
    assert(resource_table()[1].resource == Resource::Job);
    assert(resource_table()[2].resource == Resource::Profile);
    assert(resource_table()[3].resource == Resource::Automations);
    assert(resource_table()[4].resource == Resource::Schema);
    assert(resource_table()[5].resource == Resource::FoundJobs);
}

} // verus!
