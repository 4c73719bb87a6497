# template_registry

A verified registry of Handlebars templates, written in Verus.

The registry keeps compiled templates, helpers, decorators and rendering options. It
installs and replaces template packages as a whole: a package is accepted only if all
of its members compile and every partial that they refer to is there, and a package
that is refused changes nothing. In dev mode it reads templates and script helpers
again from their sources.

* `src/` is the library. `registry` is the registry itself, with packages, updates,
  files and rendering in modules below it; `template` holds compiled templates and
  finds the partials that a template requires; `names` holds sorted maps and sets of
  names; `laws` states what holds of the registry as a whole.
* `app/` connects the library to the file system, to embedded files, to serializable
  data and to writers.
* `tests/` runs the library with a small template engine.

The template compiler and the readers of sources are a `Backend` of the registry, and a
renderer is handed to its `render` methods. Script helpers are compiled by rhai. What is
taken on trust of rhai and of the standard library stands in `script`, `shared` and
`text`.
