# deploy_sc

A deployment tool for Git-hosted Web and Java projects: it fetches the
source, recognizes the project, packages Java builds, builds, pushes and
removes the Docker image, and can roll the image out to Kubernetes.

The decisions of every stage live in the verified library under `src/`,
proved with Verus against contracts over mathematical models:

- `context`: the run context, the per-repository directory (keyed by the
  host and path of `--git-url`) and the lexical path model that keeps it and
  every build path inside the start directory;
- `config`: validation of `.deploy-sc.toml`;
- `git`: remote checks, the Basic authorization header, the Git commands and
  the source acquisition protocol as a state machine;
- `detect`: project type, Java layout, module and build tool, from a snapshot
  of the repository's files;
- `packaging`: the Java build command and the choice of the runnable JAR;
- `docker`, `k8s`, `workflow`, `process`, `error`, `text`: the Docker
  commands, the Kubernetes plan and rollout check, image tags, command
  outcomes, error remedies and text helpers.

`app/` holds the program around it: argument parsing, reading files, running
commands and talking to the cluster. `tests/` exercises the library.
