# ndc_pushdown

Verified planning logic for calling NDC (native data connector) functions
from a query engine.

- `src/` is the library, verified with Verus:
  - `pushdown.rs`: resolves a command selection against resolved metadata
    into an `NDCFunctionPushDown` (fields, arguments, function, output), with
    every error the resolution can meet, and builds the query it sends;
  - `response.rs`: reads the rows of a function's result out of the row sets
    of an NDC response;
  - `query_plan.rs`: query execution plans and their trees of remote
    predicates, each stored under a random UUID;
  - `connector_types.rs`: the scalar types of the custom test connector;
  - `sorted_map.rs`: a map from `String` keys that keeps its entries in key
    order, as `BTreeMap<String, _>` does, with the laws of that order;
  - `field.rs`, `json.rs`, `metadata.rs`, `names.rs`: the data the logic reads.
- `app/` holds what Verus does not see: the DataFusion execution-plan node,
  the Arrow decoding of result rows, serde forms of the library's types, and
  the messages of planning errors.
- `tests/` runs the library on concrete inputs.
