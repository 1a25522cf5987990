# aas_edge

Backend of an asset administration shell (AAS) edge device: it keeps the
shell's submodels in MongoDB, serves and patches them over HTTP, pushes the
device's system information to an AASX server every 5 seconds and polls the
server for the managed-device submodel every 10 seconds.

- `src/` is the library, verified with Verus: the document model and the
  patch merge (`value`, `merge`), identifiers and URLs (`codec`,
  `aas_interfaces`, `onboarding`), the answers of every endpoint
  (`operation`, `handlers`), time stamps (`time`), the pushing task as a
  state machine (`scheduler_task`), and models of the submodel store
  (`store`) and of a whole run of the pushing task (`push_run`), with the
  laws proved of them.
- `app/` is the service around it: actix-web, the MongoDB driver, reqwest,
  the scheduler and the conversions between the driver's BSON and the
  library's values.
- `tests/` runs the library on concrete values.
