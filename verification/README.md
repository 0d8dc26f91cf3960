# tc

The decision-making core of a command-line tool that builds, publishes and
deploys serverless topologies, as a verified library.

- `src/` holds the library. Each command of the tool is a function from its
  options to a plan (`commands`), and the deployment commands return their
  sequences of work as steps (`steps`); the other modules compute what the commands
  send and show: CircleCI endpoints and pipeline parameters (`ci::circleci`),
  state machine execution views (`invoker::sfn`), template rendering
  (`template`, `resolver::context`), layer and image publication
  (`publisher`), Ruby builds (`builder::ruby`), GraphQL mutation deployment
  (`deployer::mutation`) and the inspector's rows (`inspector`).
- `app/` holds the edges: reading the CI token from the environment, posting
  to CircleCI through a given HTTP client, printing and opening pages.
- `tests/` runs the library on concrete values.
